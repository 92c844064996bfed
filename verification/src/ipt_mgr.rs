//! The IPT manager's state machine.
//!
//! The manager maintains a pool of introduction points at chosen relays.
//! Each pass of [`IptManager::progress_once`] is idempotent progress: it
//! either improves the state by one step (rotating out an aged IPT,
//! dropping expired ones and empty retired relays) or reports what outside
//! work is needed next — a new IPT at a known relay, a new relay from the
//! directory, or nothing until a stated wake-up time.
//!
//! The surrounding task performs the outside work (keystore and replay-log
//! I/O, establisher tasks, relay selection from the directory) and feeds
//! the results back in through the event methods.

use vstd::prelude::*;
use crate::config::OnionServiceConfig;
use crate::errors::{CreateIptError, FatalError};
use crate::ids::{spec_shares_any_id, IptLocalId, KeyPairValue, RelayIds};
use crate::ipt::{IptRelay, IptRelayView, IptView, TrackedStatusView, relay_current, relay_current_idx, relay_good_current, relay_goodish_current, relay_has_current, relay_should_retire};
use crate::keystore::{IptKeyRole, Keystore};
use crate::seqx::{lemma_count_take_all, lemma_count_take_step, lemma_first_where_is, lemma_first_where_none, lemma_first_where_sound, opt_min, seq_count, seq_first_where};

verus! {

/// How long after a transient IPT-creation failure (keystore or replay
/// log) the manager should be woken to retry, in milliseconds.
pub const STORAGE_RETRY_MS: u64 = 60000;

/// What a progress pass found to do.
#[derive(Clone, Copy, PartialEq, Eq, Structural, Debug)]
pub enum Progress {
    /// The state changed; call `progress_once` again.
    Changed,
    /// The relay at this index needs a new introduction point: generate an
    /// identifier and keys, open its replay log, start an establisher, and
    /// report back.
    NeedIpt {
        /// Index into the manager's relay list.
        relay_index: usize,
    },
    /// A new relay should be selected from the directory.
    NeedRelay,
    /// Nothing to do until `wake` (if any), or until an event arrives.
    Idle {
        /// The earliest future instant at which something is scheduled to
        /// happen.
        wake: Option<u64>,
    },
}

/// The views of a vector of relays.
pub open spec fn relays_view(v: Vec<IptRelay>) -> Seq<IptRelayView> {
    Seq::new(v@.len(), |i: int| v@[i]@)
}

/// `now + d`, capped at the largest representable instant.
pub open spec fn sat_add(now: u64, d: u64) -> u64 {
    if now + d <= u64::MAX {
        (now + d) as u64
    } else {
        u64::MAX
    }
}

// ---------- rotation ----------

/// Whether this relay is due for rotation: past retirement with a current
/// IPT still marked.
pub open spec fn relay_rotatable(r: IptRelayView, now: u64) -> bool {
    relay_should_retire(r, now) && relay_has_current(r)
}

/// The first relay due for rotation, if any.
pub open spec fn first_rotatable(rs: Seq<IptRelayView>, now: u64) -> Option<int> {
    seq_first_where(rs, |r: IptRelayView| relay_rotatable(r, now))
}

/// Whether a rotation step applies: we have at least the target number of
/// good current IPTs, and some relay is past retirement with a current
/// IPT.
pub open spec fn rotate_applicable(rs: Seq<IptRelayView>, now: u64, target: nat) -> bool {
    seq_count(rs, |r: IptRelayView| relay_good_current(r)) >= target && first_rotatable(rs, now)
        is Some
}

/// This relay with its current IPT no longer marked current.
pub open spec fn clear_current(r: IptRelayView) -> IptRelayView {
    let j = relay_current_idx(r)->Some_0;
    IptRelayView {
        relay: r.relay,
        planned_retirement: r.planned_retirement,
        ipts: r.ipts.update(j, IptView { is_current: false, ..r.ipts[j] }),
    }
}

/// The relay list after one rotation step (meaningful when applicable).
pub open spec fn rotate_result(rs: Seq<IptRelayView>, now: u64) -> Seq<IptRelayView> {
    let k = first_rotatable(rs, now)->Some_0;
    rs.update(k, clear_current(rs[k]))
}

/// The total number of IPTs marked current, over all relays.
///
/// Each rotation step clears exactly one current mark and sets none, so
/// this measures how many rotation steps can still happen.
pub open spec fn total_current_ipts(rs: Seq<IptRelayView>) -> nat
    decreases rs.len(),
{
    if rs.len() == 0 {
        0
    } else {
        total_current_ipts(rs.drop_last()) + seq_count(
            rs.last().ipts,
            |i: IptView| crate::ipt::ipt_current(i),
        )
    }
}

/// How replacing one relay changes the total of current marks.
pub proof fn lemma_total_current_update(rs: Seq<IptRelayView>, k: int, rp: IptRelayView)
    requires
        0 <= k < rs.len(),
    ensures
        total_current_ipts(rs.update(k, rp)) + seq_count(
            rs[k].ipts,
            |i: IptView| crate::ipt::ipt_current(i),
        ) == total_current_ipts(rs) + seq_count(rp.ipts, |i: IptView| crate::ipt::ipt_current(i)),
    decreases rs.len(),
{
    let su = rs.update(k, rp);
    if k == rs.len() - 1 {
        assert(su.drop_last() =~= rs.drop_last());
        assert(su.last() == rp);
    } else {
        assert(su.drop_last() =~= rs.drop_last().update(k, rp));
        assert(su.last() == rs.last());
        lemma_total_current_update(rs.drop_last(), k, rp);
    }
}

/// A rotation step clears exactly one current mark.
pub proof fn lemma_rotate_decreases_current(rs: Seq<IptRelayView>, now: u64)
    requires
        first_rotatable(rs, now) is Some,
    ensures
        total_current_ipts(rotate_result(rs, now)) + 1 == total_current_ipts(rs),
{
    let cur = |i: IptView| crate::ipt::ipt_current(i);
    let k = first_rotatable(rs, now)->Some_0;
    crate::seqx::lemma_first_where_sound(rs, |r: IptRelayView| relay_rotatable(r, now));
    crate::seqx::lemma_first_where_sound(rs[k].ipts, cur);
    let j = relay_current_idx(rs[k])->Some_0;
    let rp = clear_current(rs[k]);
    crate::seqx::lemma_count_update(rs[k].ipts, cur, j, IptView { is_current: false, ..rs[k].ipts[j] });
    lemma_total_current_update(rs, k, rp);
}

/// The state after up to `fuel` rotation steps, stopping as soon as no
/// step applies.
pub open spec fn rotate_fix(
    rs: Seq<IptRelayView>,
    now: u64,
    target: nat,
    fuel: nat,
) -> Seq<IptRelayView>
    decreases fuel,
{
    if fuel == 0 || !rotate_applicable(rs, now, target) {
        rs
    } else {
        rotate_fix(rotate_result(rs, now), now, target, (fuel - 1) as nat)
    }
}

/// With rotation inapplicable, any amount of fuel changes nothing.
pub proof fn lemma_rotate_fix_fixed(rs: Seq<IptRelayView>, now: u64, target: nat, m: nat)
    requires
        !rotate_applicable(rs, now, target),
    ensures
        rotate_fix(rs, now, target, m) == rs,
{
}

/// While rotation applies, one more unit of fuel performs one more step.
pub proof fn lemma_rotate_fix_step(rs: Seq<IptRelayView>, now: u64, target: nat, k: nat)
    requires
        rotate_applicable(rotate_fix(rs, now, target, k), now, target),
    ensures
        rotate_fix(rs, now, target, (k + 1) as nat) == rotate_result(
            rotate_fix(rs, now, target, k),
            now,
        ),
    decreases k,
{
    reveal_with_fuel(rotate_fix, 3);
    if k == 0 {
    } else {
        if !rotate_applicable(rs, now, target) {
            assert(rotate_fix(rs, now, target, k) == rs);
        } else {
            lemma_rotate_fix_step(rotate_result(rs, now), now, target, (k - 1) as nat);
        }
    }
}

/// Once the fixpoint is reached, more fuel changes nothing.
pub proof fn lemma_rotate_fix_stable(
    rs: Seq<IptRelayView>,
    now: u64,
    target: nat,
    k: nat,
    m: nat,
)
    requires
        k <= m,
        !rotate_applicable(rotate_fix(rs, now, target, k), now, target),
    ensures
        rotate_fix(rs, now, target, m) == rotate_fix(rs, now, target, k),
    decreases k,
{
    if k == 0 {
        lemma_rotate_fix_fixed(rs, now, target, m);
    } else {
        if !rotate_applicable(rs, now, target) {
            lemma_rotate_fix_fixed(rs, now, target, m);
            lemma_rotate_fix_fixed(rs, now, target, k);
        } else {
            lemma_rotate_fix_stable(
                rotate_result(rs, now),
                now,
                target,
                (k - 1) as nat,
                (m - 1) as nat,
            );
        }
    }
}

// ---------- garbage collection ----------

/// Whether an IPT is kept: current, or still named by a descriptor that
/// has not expired.
pub open spec fn ipt_keep(i: IptView, now: u64) -> bool {
    i.is_current || (match i.last_descriptor_expiry_including_slop {
        None => false,
        Some(last) => now < last,
    })
}

/// This relay with its expired, non-current IPTs dropped.
pub open spec fn gc_relay(r: IptRelayView, now: u64) -> IptRelayView {
    IptRelayView {
        relay: r.relay,
        planned_retirement: r.planned_retirement,
        ipts: r.ipts.filter(|i: IptView| ipt_keep(i, now)),
    }
}

/// All relays with their expired, non-current IPTs dropped.
pub open spec fn gc_ipts(rs: Seq<IptRelayView>, now: u64) -> Seq<IptRelayView> {
    Seq::new(rs.len(), |i: int| gc_relay(rs[i], now))
}

/// Whether a relay record is kept: not yet both retired and empty.
pub open spec fn relay_keep(r: IptRelayView, now: u64) -> bool {
    !(relay_should_retire(r, now) && r.ipts.len() == 0)
}

/// The relay list with retired, empty relays dropped.
pub open spec fn gc_relays(rs: Seq<IptRelayView>, now: u64) -> Seq<IptRelayView> {
    rs.filter(|r: IptRelayView| relay_keep(r, now))
}

/// The identifiers of the IPTs one relay's garbage collection drops.
pub open spec fn dropped_of_relay(r: IptRelayView, now: u64) -> Seq<IptLocalId> {
    r.ipts.filter(|i: IptView| !ipt_keep(i, now)).map_values(|i: IptView| i.lid)
}

/// The identifiers of all the IPTs garbage collection drops, in state
/// order.
pub open spec fn dropped_lids(rs: Seq<IptRelayView>, now: u64) -> Seq<IptLocalId>
    decreases rs.len(),
{
    if rs.len() == 0 {
        Seq::empty()
    } else {
        dropped_lids(rs.drop_last(), now) + dropped_of_relay(rs.last(), now)
    }
}

// ---------- filling in and selecting ----------

/// Whether this relay should get a new IPT: not retiring, and no current
/// IPT.
pub open spec fn relay_needs_ipt(r: IptRelayView, now: u64) -> bool {
    !relay_should_retire(r, now) && !relay_has_current(r)
}

/// The first relay that should get a new IPT, if any.
pub open spec fn fill_index(rs: Seq<IptRelayView>, now: u64) -> Option<int> {
    seq_first_where(rs, |r: IptRelayView| relay_needs_ipt(r, now))
}

/// Whether a new relay should be selected: fewer good-ish (good or still
/// establishing) current IPTs than the target, fewer relays than twice the
/// target, and the last selection attempt did not fail.
pub open spec fn need_new_relay(
    rs: Seq<IptRelayView>,
    target: nat,
    selection_ok: bool,
) -> bool {
    seq_count(rs, |r: IptRelayView| relay_goodish_current(r)) < target && rs.len() < 2 * target
        && selection_ok
}

// ---------- wake-up times ----------

/// The deadline this IPT contributes: the descriptor expiry of a
/// non-current IPT, when still in the future.
pub open spec fn ipt_wake(i: IptView, now: u64) -> Option<u64> {
    if !i.is_current {
        match i.last_descriptor_expiry_including_slop {
            Some(last) => if last > now {
                Some(last)
            } else {
                None
            },
            None => None,
        }
    } else {
        None
    }
}

/// The earliest deadline among these IPTs.
pub open spec fn ipts_wake(is: Seq<IptView>, now: u64) -> Option<u64>
    decreases is.len(),
{
    if is.len() == 0 {
        None
    } else {
        opt_min(ipts_wake(is.drop_last(), now), ipt_wake(is.last(), now))
    }
}

/// The earliest deadline this relay contributes: its planned retirement,
/// if still in the future, and its IPTs' deadlines.
pub open spec fn relay_wake(r: IptRelayView, now: u64) -> Option<u64> {
    opt_min(
        if r.planned_retirement > now {
            Some(r.planned_retirement)
        } else {
            None
        },
        ipts_wake(r.ipts, now),
    )
}

/// The earliest deadline among all relays.
pub open spec fn relays_wake(rs: Seq<IptRelayView>, now: u64) -> Option<u64>
    decreases rs.len(),
{
    if rs.len() == 0 {
        None
    } else {
        opt_min(relays_wake(rs.drop_last(), now), relay_wake(rs.last(), now))
    }
}

/// Whether some relay in the list shares an identity with `relay`.
pub open spec fn relay_in_use(rs: Seq<IptRelayView>, relay: RelayIds) -> bool {
    exists|k: int| 0 <= k < rs.len() && spec_shares_any_id(#[trigger] rs[k].relay, relay)
}

/// What a progress pass decides once the state is clean: fill in a
/// missing IPT (unless creation is suspended this cycle), select a new
/// relay, or wait.
pub open spec fn next_action_spec(
    rs: Seq<IptRelayView>,
    now: u64,
    target: nat,
    selection_ok: bool,
    retry: Option<u64>,
) -> Progress {
    if retry is None && fill_index(rs, now) is Some {
        Progress::NeedIpt { relay_index: fill_index(rs, now)->Some_0 as usize }
    } else if need_new_relay(rs, target, selection_ok) {
        Progress::NeedRelay
    } else {
        Progress::Idle { wake: opt_min(relays_wake(rs, now), retry) }
    }
}

// ---------- status updates ----------

/// When establishment began, as far as the tracked status knows.
pub open spec fn status_started(ts: TrackedStatusView) -> Option<u64> {
    match ts {
        TrackedStatusView::Establishing { started } => Some(started),
        TrackedStatusView::Faulty { started } => started,
        TrackedStatusView::Good { .. } => None,
    }
}

/// The tracked status after one establisher report.
///
/// Going `Good` records the time establishment took, unless the monotonic
/// clock appears to have gone backwards, in which case the time is
/// unknown.  Establishment keeps the earliest known start; a fault keeps
/// whatever start is known.
pub open spec fn updated_status(
    old_ts: TrackedStatusView,
    update: crate::ipt::IptStatusStatusView,
    now: u64,
) -> TrackedStatusView {
    let started = status_started(old_ts);
    match update {
        crate::ipt::IptStatusStatusView::Establishing => TrackedStatusView::Establishing {
            started: match started {
                Some(s) => s,
                None => now,
            },
        },
        crate::ipt::IptStatusStatusView::Good(d) => TrackedStatusView::Good {
            time_to_establish: match started {
                Some(s) => if now >= s {
                    Some((now - s) as u64)
                } else {
                    None
                },
                None => None,
            },
            details: d,
        },
        crate::ipt::IptStatusStatusView::Faulty => TrackedStatusView::Faulty { started },
    }
}

/// One IPT after one establisher report: new tracked status, and the
/// current mark cleared if the establisher wants to retire it.
pub open spec fn updated_ipt(i: IptView, st: crate::ipt::IptStatusView, now: u64) -> IptView {
    IptView {
        status_last: updated_status(i.status_last, st.status, now),
        is_current: if st.wants_to_retire {
            false
        } else {
            i.is_current
        },
        ..i
    }
}

/// Whether this IPT carries the identifier.
pub open spec fn ipt_has_lid(i: IptView, lid: IptLocalId) -> bool {
    i.lid == lid
}

/// The first IPT with this identifier within one relay, if any.
pub open spec fn lid_index_in(r: IptRelayView, lid: IptLocalId) -> Option<int> {
    seq_first_where(r.ipts, |x: IptView| ipt_has_lid(x, lid))
}

/// Whether this relay holds an IPT with the identifier.
pub open spec fn relay_has_lid(r: IptRelayView, lid: IptLocalId) -> bool {
    lid_index_in(r, lid) is Some
}

/// Where the IPT with this identifier lives: the first relay holding it,
/// and the position within that relay.
pub open spec fn find_lid(rs: Seq<IptRelayView>, lid: IptLocalId) -> Option<(int, int)> {
    match seq_first_where(rs, |r: IptRelayView| relay_has_lid(r, lid)) {
        None => None,
        Some(k) => Some((k, lid_index_in(rs[k], lid)->Some_0)),
    }
}

/// The relay list after one establisher report for `lid`: the named IPT
/// (if still known) has its status updated; a report for a forgotten IPT
/// changes nothing.
pub open spec fn status_update_result(
    rs: Seq<IptRelayView>,
    lid: IptLocalId,
    st: crate::ipt::IptStatusView,
    now: u64,
) -> Seq<IptRelayView> {
    match find_lid(rs, lid) {
        None => rs,
        Some((k, j)) => rs.update(
            k,
            IptRelayView { ipts: rs[k].ipts.update(j, updated_ipt(rs[k].ipts[j], st, now)), ..rs[k] },
        ),
    }
}

/// One IPT with the publisher's latest descriptor-expiry knowledge
/// merged in.
pub open spec fn imported_ipt(i: IptView, m: Seq<crate::ipt_set::ExpiryEntry>) -> IptView {
    match crate::ipt_set::em_lookup(m, i.lid) {
        Some(v) => IptView { last_descriptor_expiry_including_slop: Some(v), ..i },
        None => i,
    }
}

/// One relay with the publisher's expiry knowledge merged into each IPT.
pub open spec fn imported_relay(r: IptRelayView, m: Seq<crate::ipt_set::ExpiryEntry>) -> IptRelayView {
    IptRelayView { ipts: Seq::new(r.ipts.len(), |j: int| imported_ipt(r.ipts[j], m)), ..r }
}

/// All relays with the publisher's expiry knowledge merged in.
pub open spec fn imported_all(
    rs: Seq<IptRelayView>,
    m: Seq<crate::ipt_set::ExpiryEntry>,
) -> Seq<IptRelayView> {
    Seq::new(rs.len(), |k: int| imported_relay(rs[k], m))
}

// ---------- the publish set ----------

/// Proposed descriptor lifetime when we are unsure of our IPT set
/// (milliseconds): half an hour.
pub const IPT_PUBLISH_UNCERTAIN_MS: u64 = 1800000;

/// Proposed descriptor lifetime when we are sure of our IPT set
/// (milliseconds): twelve hours.
pub const IPT_PUBLISH_CERTAIN_MS: u64 = 43200000;

/// The current IPTs in `Good` state, in the stable state order: by relay
/// selection order, and within a relay by IPT selection order.
pub open spec fn good_current_ipts(rs: Seq<IptRelayView>) -> Seq<IptView> {
    rs.filter(|r: IptRelayView| relay_good_current(r)).map_values(
        |r: IptRelayView| relay_current(r),
    )
}

/// How long this IPT took to establish, when known.
pub open spec fn ipt_tte(i: IptView) -> Option<u64> {
    match i.status_last {
        TrackedStatusView::Good { time_to_establish, .. } => time_to_establish,
        _ => None,
    }
}

/// The fastest known establish time among these IPTs.
pub open spec fn fastest_tte(g: Seq<IptView>) -> Option<u64>
    decreases g.len(),
{
    if g.len() == 0 {
        None
    } else {
        opt_min(fastest_tte(g.drop_last()), ipt_tte(g.last()))
    }
}

/// When this relay's current IPT started establishing, if it is still
/// establishing.
pub open spec fn relay_establishing_started(r: IptRelayView) -> Option<u64> {
    if relay_has_current(r) {
        match relay_current(r).status_last {
            TrackedStatusView::Establishing { started } => Some(started),
            _ => None,
        }
    } else {
        None
    }
}

/// The earliest start among the current IPTs still establishing.
pub open spec fn earliest_establishing(rs: Seq<IptRelayView>) -> Option<u64>
    decreases rs.len(),
{
    if rs.len() == 0 {
        None
    } else {
        opt_min(earliest_establishing(rs.drop_last()), relay_establishing_started(rs.last()))
    }
}

/// Whether publication is held off: the fastest good IPT took `t` to
/// establish, and some current IPT began establishing less than `2t` ago,
/// so waiting a little may improve the set we publish.
pub open spec fn hold_off(rs: Seq<IptRelayView>, now: u64) -> bool {
    match fastest_tte(good_current_ipts(rs)) {
        Some(t) => 2 * t <= u64::MAX && (match earliest_establishing(rs) {
            Some(e) => now < e + 2 * t,
            None => false,
        }),
        None => false,
    }
}

/// When a held-off publication should be reconsidered.
pub open spec fn hold_off_wake(rs: Seq<IptRelayView>, now: u64) -> Option<u64> {
    if hold_off(rs, now) {
        let t = fastest_tte(good_current_ipts(rs))->Some_0;
        let e = earliest_establishing(rs)->Some_0;
        Some(sat_add(e, (2 * t) as u64))
    } else {
        None
    }
}

/// The proposed descriptor lifetime, or `None` for "publish nothing":
/// sure (12 h) with a full target of good IPTs; nothing with none good or
/// while holding off; otherwise unsure (30 min).
pub open spec fn publish_lifetime(rs: Seq<IptRelayView>, now: u64, target: nat) -> Option<u64> {
    let g = good_current_ipts(rs);
    if g.len() >= target {
        Some(IPT_PUBLISH_CERTAIN_MS)
    } else if g.len() == 0 {
        None
    } else if hold_off(rs, now) {
        None
    } else {
        Some(IPT_PUBLISH_UNCERTAIN_MS)
    }
}

/// The IPTs chosen for publication: the last up to `target` good current
/// IPTs — those at the most recently selected relays.
pub open spec fn selected_ipts(rs: Seq<IptRelayView>, target: nat) -> Seq<IptView> {
    let g = good_current_ipts(rs);
    if g.len() <= target {
        g
    } else {
        g.subrange(g.len() - target, g.len() as int)
    }
}

/// The establisher's report behind a `Good` status (meaningful only
/// then).
pub open spec fn good_details(i: IptView) -> crate::ipt::GoodIptDetailsView {
    match i.status_last {
        TrackedStatusView::Good { details, .. } => details,
        _ => vstd::pervasive::arbitrary(),
    }
}

/// What the publisher is told about one chosen IPT.
pub open spec fn for_publish_view(i: IptView) -> crate::ipt_set::PublishIptView {
    crate::ipt_set::PublishIptView {
        link_specifiers: good_details(i).link_specifiers,
        ipt_kp_ntor: good_details(i).ipt_kp_ntor,
        kp_hs_ipt_sid: i.k_sid.public,
        kp_hss_ntor: i.k_hss_ntor.public,
    }
}

/// The set handed to the publisher, if any.
pub open spec fn publish_view(rs: Seq<IptRelayView>, now: u64, target: nat) -> Option<
    crate::ipt_set::IptSetView,
> {
    match publish_lifetime(rs, now, target) {
        None => None,
        Some(lt) => Some(
            crate::ipt_set::IptSetView {
                ipts: selected_ipts(rs, target).map_values(
                    |i: IptView| crate::ipt_set::IptInSetView { ipt: for_publish_view(i), lid: i.lid },
                ),
                lifetime: lt,
            },
        ),
    }
}

// ---------- the keystore invariant ----------

/// Whether the keystore holds exactly this IPT's two key pairs under its
/// identifier.
pub open spec fn ipt_keys_stored(ks: Keystore, i: IptView) -> bool {
    ks.spec_lookup(IptKeyRole::KSid, i.lid) == Some(i.k_sid) && ks.spec_lookup(
        IptKeyRole::KHssNtor,
        i.lid,
    ) == Some(i.k_hss_ntor)
}

/// For every IPT known to the manager, the keystore holds both its key
/// pairs.
pub open spec fn keys_invariant(rs: Seq<IptRelayView>, ks: Keystore) -> bool {
    forall|k: int, j: int|
        0 <= k < rs.len() && 0 <= j < rs[k].ipts.len() ==> ipt_keys_stored(
            ks,
            #[trigger] rs[k].ipts[j],
        )
}

/// The position of the IPT with identifier `lid` within this relay, if
/// any.
fn relay_lid_index(rel: &IptRelay, lid: IptLocalId) -> (r: Option<usize>)
    ensures
        match r {
            Some(j) => lid_index_in(rel@, lid) == Some(j as int),
            None => lid_index_in(rel@, lid) is None,
        },
{
    let ghost p = |x: IptView| ipt_has_lid(x, lid);
    let n = rel.ipts.len();
    let mut j: usize = 0;
    while j < n
        invariant
            j <= n,
            n == rel@.ipts.len(),
            p == (|x: IptView| ipt_has_lid(x, lid)),
            forall|m: int| 0 <= m < j ==> !p(#[trigger] rel@.ipts[m]),
        decreases n - j,
    {
        if rel.ipts[j].lid == lid {
            proof {
                lemma_first_where_is(rel@.ipts, p, j as int);
            }
            return Some(j);
        }
        j += 1;
    }
    proof {
        lemma_first_where_none(rel@.ipts, p);
    }
    None
}

/// The IPT manager's state for one onion service.
#[derive(Debug)]
pub struct IptManager {
    /// The configuration snapshot the manager currently works from.
    pub config: OnionServiceConfig,
    /// The selected relays, in chronological order of selection.
    pub irelays: Vec<IptRelay>,
    /// Whether the last relay selection succeeded; when it failed we wait
    /// for a directory event before trying again.
    pub last_irelay_selection_ok: bool,
    /// While set, IPT creation failed transiently in this cycle: do not
    /// retry before the next cycle, and wake by this time.
    pub create_retry_wake: Option<u64>,
}

impl IptManager {
    /// The views of the manager's relays.
    pub open spec fn rv(&self) -> Seq<IptRelayView> {
        relays_view(self.irelays)
    }

    /// The target number of introduction points.
    pub open spec fn spec_target(&self) -> nat {
        self.config.num_intro_points as nat
    }

    /// A fresh manager: no relays yet, selection unencumbered.
    pub fn new(config: OnionServiceConfig) -> (r: IptManager)
        ensures
            r.config == config,
            r.rv().len() == 0,
            r.last_irelay_selection_ok,
            r.create_retry_wake is None,
    {
        IptManager {
            config,
            irelays: Vec::new(),
            last_irelay_selection_ok: true,
            create_retry_wake: None,
        }
    }

    /// Target number of intro points.
    pub fn target_n_intro_points(&self) -> (r: usize)
        ensures
            r == self.spec_target(),
    {
        self.config.num_intro_points as usize
    }

    /// Maximum number of concurrent intro point relays.
    pub fn max_n_intro_relays(&self) -> (r: usize)
        ensures
            r == 2 * self.spec_target(),
    {
        2 * self.target_n_intro_points()
    }

    /// Begin a new cycle of the main loop: a creation failure noted in the
    /// previous cycle no longer blocks retrying.
    pub fn begin_cycle(&mut self)
        ensures
            final(self).create_retry_wake is None,
            final(self).config == old(self).config,
            final(self).irelays == old(self).irelays,
            final(self).last_irelay_selection_ok == old(self).last_irelay_selection_ok,
    {
        self.create_retry_wake = None;
    }

    /// Note that creating an IPT failed transiently (keystore or replay
    /// log): do not retry this cycle, wake for a retry in at most a
    /// minute.
    pub fn note_ipt_create_failed(&mut self, now: u64)
        ensures
            final(self).create_retry_wake == Some(sat_add(now, STORAGE_RETRY_MS)),
            final(self).config == old(self).config,
            final(self).irelays == old(self).irelays,
            final(self).last_irelay_selection_ok == old(self).last_irelay_selection_ok,
    {
        if now <= u64::MAX - STORAGE_RETRY_MS {
            self.create_retry_wake = Some(now + STORAGE_RETRY_MS);
        } else {
            self.create_retry_wake = Some(u64::MAX);
        }
    }

    /// Note that relay selection failed: wait for a directory event
    /// before trying again.
    pub fn note_relay_selection_failed(&mut self)
        ensures
            !final(self).last_irelay_selection_ok,
            final(self).config == old(self).config,
            final(self).irelays == old(self).irelays,
            final(self).create_retry_wake == old(self).create_retry_wake,
    {
        self.last_irelay_selection_ok = false;
    }

    /// Note a directory event: relay selection may be retried.
    pub fn note_directory_event(&mut self)
        ensures
            final(self).last_irelay_selection_ok,
            final(self).config == old(self).config,
            final(self).irelays == old(self).irelays,
            final(self).create_retry_wake == old(self).create_retry_wake,
    {
        self.last_irelay_selection_ok = true;
    }

    /// How many relays have a current IPT in `Good` state.
    pub fn count_good_current(&self) -> (r: usize)
        ensures
            r == seq_count(self.rv(), |x: IptRelayView| relay_good_current(x)),
    {
        let ghost p = |x: IptRelayView| relay_good_current(x);
        let ghost rs = self.rv();
        let n = self.irelays.len();
        let mut count: usize = 0;
        let mut i: usize = 0;
        while i < n
            invariant
                i <= n,
                n == rs.len(),
                rs == self.rv(),
                p == (|x: IptRelayView| relay_good_current(x)),
                count == seq_count(rs.take(i as int), p),
                count <= i,
            decreases n - i,
        {
            proof {
                lemma_count_take_step(rs, p, i as int);
            }
            if self.irelays[i].good_current() {
                count += 1;
            }
            i += 1;
        }
        proof {
            lemma_count_take_all(rs, p);
        }
        count
    }

    /// How many relays have a current IPT that is `Good` or
    /// `Establishing`.
    pub fn count_goodish_current(&self) -> (r: usize)
        ensures
            r == seq_count(self.rv(), |x: IptRelayView| relay_goodish_current(x)),
    {
        let ghost p = |x: IptRelayView| relay_goodish_current(x);
        let ghost rs = self.rv();
        let n = self.irelays.len();
        let mut count: usize = 0;
        let mut i: usize = 0;
        while i < n
            invariant
                i <= n,
                n == rs.len(),
                rs == self.rv(),
                p == (|x: IptRelayView| relay_goodish_current(x)),
                count == seq_count(rs.take(i as int), p),
                count <= i,
            decreases n - i,
        {
            proof {
                lemma_count_take_step(rs, p, i as int);
            }
            if self.irelays[i].goodish_current() {
                count += 1;
            }
            i += 1;
        }
        proof {
            lemma_count_take_all(rs, p);
        }
        count
    }

    /// Rotate out one aged IPT, if the pool is full enough to afford it.
    ///
    /// When at least the target number of current IPTs are `Good` and some
    /// relay is past its planned retirement with an IPT still marked
    /// current, that IPT's current mark is cleared (at the first such
    /// relay) and `true` is returned; otherwise nothing changes.
    pub fn rotate_out_aged(&mut self, now: u64) -> (changed: bool)
        ensures
            final(self).config == old(self).config,
            final(self).last_irelay_selection_ok == old(self).last_irelay_selection_ok,
            final(self).create_retry_wake == old(self).create_retry_wake,
            changed == rotate_applicable(old(self).rv(), now, old(self).spec_target()),
            changed ==> final(self).rv() == rotate_result(old(self).rv(), now),
            !changed ==> final(self).irelays == old(self).irelays,
    {
        let ghost rs = self.rv();
        let ghost rot = |x: IptRelayView| relay_rotatable(x, now);
        let n_good = self.count_good_current();
        let target = self.target_n_intro_points();
        if n_good < target {
            return false;
        }
        let n = self.irelays.len();
        let mut k: usize = 0;
        while k < n
            invariant
                k <= n,
                n == rs.len(),
                rs == self.rv(),
                self == old(self),
                rot == (|x: IptRelayView| relay_rotatable(x, now)),
                seq_count(rs, |r: IptRelayView| relay_good_current(r)) >= old(self).spec_target(),
                forall|j: int| 0 <= j < k ==> !rot(#[trigger] rs[j]),
            decreases n - k,
        {
            let retire = self.irelays[k].should_retire(now);
            if retire {
                if let Some(j) = self.irelays[k].current_ipt_index() {
                    proof {
                        assert(rot(rs[k as int]));
                        lemma_first_where_is(rs, rot, k as int);
                        lemma_first_where_sound(rs[k as int].ipts, |x: IptView| crate::ipt::ipt_current(x));
                    }
                    let mut rel = self.irelays.remove(k);
                    let mut ipt = rel.ipts.remove(j);
                    ipt.is_current = false;
                    let ghost ipt_new = ipt@;
                    rel.ipts.insert(j, ipt);
                    proof {
                        assert(rel@.ipts =~= rs[k as int].ipts.update(j as int, ipt_new));
                        assert(rel@ =~= clear_current(rs[k as int]));
                    }
                    self.irelays.insert(k, rel);
                    proof {
                        assert(self.rv() =~= rs.update(k as int, clear_current(rs[k as int])));
                    }
                    return true;
                }
            }
            proof {
                assert(!rot(rs[k as int]));
            }
            k += 1;
        }
        proof {
            lemma_first_where_none(rs, rot);
        }
        false
    }

    /// Collect garbage: drop every IPT that is neither current nor still
    /// named by an unexpired descriptor, then drop every relay that is
    /// past retirement with no IPTs left.
    ///
    /// Returns the identifiers of the dropped IPTs, in state order; the
    /// caller tears their establishers down and closes their replay logs.
    pub fn collect_garbage(&mut self, now: u64) -> (removed: Vec<IptLocalId>)
        ensures
            final(self).config == old(self).config,
            final(self).last_irelay_selection_ok == old(self).last_irelay_selection_ok,
            final(self).create_retry_wake == old(self).create_retry_wake,
            final(self).rv() == gc_relays(gc_ipts(old(self).rv(), now), now),
            removed@ == dropped_lids(old(self).rv(), now),
    {
        let ghost rs = old(self).rv();
        let ghost keep_ipt = |x: IptView| ipt_keep(x, now);
        let ghost keep_rel = |x: IptRelayView| relay_keep(x, now);
        let n = self.irelays.len();
        let mut new_relays: Vec<IptRelay> = Vec::new();
        let mut removed: Vec<IptLocalId> = Vec::new();
        let mut i: usize = 0;
        while i < n
            invariant
                i <= n,
                n == rs.len(),
                self.config == old(self).config,
                self.last_irelay_selection_ok == old(self).last_irelay_selection_ok,
                self.create_retry_wake == old(self).create_retry_wake,
                keep_ipt == (|x: IptView| ipt_keep(x, now)),
                keep_rel == (|x: IptRelayView| relay_keep(x, now)),
                self.irelays@.len() == n - i,
                forall|m: int| 0 <= m < n - i ==> #[trigger] self.irelays@[m]@ == rs[i + m],
                relays_view(new_relays) == gc_relays(gc_ipts(rs.take(i as int), now), now),
                removed@ == dropped_lids(rs.take(i as int), now),
            decreases n - i,
        {
            let mut rel = self.irelays.remove(0);
            let ghost ivs = rs[i as int].ipts;
            assert(rel@ == rs[i as int]);
            let n_ipts = rel.ipts.len();
            let mut kept: Vec<crate::ipt::Ipt> = Vec::new();
            let mut j: usize = 0;
            while j < n_ipts
                invariant
                    j <= n_ipts,
                    n_ipts == ivs.len(),
                    keep_ipt == (|x: IptView| ipt_keep(x, now)),
                    rel.relay == rs[i as int].relay,
                    rel.planned_retirement == rs[i as int].planned_retirement,
                    rel.ipts@.len() == n_ipts - j,
                    forall|m: int| 0 <= m < n_ipts - j ==> #[trigger] rel.ipts@[m]@ == ivs[j + m],
                    Seq::new(kept@.len(), |x: int| kept@[x]@) == ivs.take(j as int).filter(
                        keep_ipt,
                    ),
                    removed@ == dropped_lids(rs.take(i as int), now) + ivs.take(j as int).filter(
                        |x: IptView| !ipt_keep(x, now),
                    ).map_values(|x: IptView| x.lid),
                decreases n_ipts - j,
            {
                let ip = rel.ipts.remove(0);
                assert(ip@ == ivs[j as int]);
                proof {
                    assert(ivs.take(j + 1).drop_last() =~= ivs.take(j as int));
                    reveal_with_fuel(Seq::filter, 2);
                    assert(ivs.take(j + 1) == ivs.take(j as int).push(ivs[j as int]));
                }
                let keep = ip.is_current || (match ip.last_descriptor_expiry_including_slop {
                    None => false,
                    Some(last) => now < last,
                });
                assert(keep == ipt_keep(ip@, now));
                if keep {
                    kept.push(ip);
                    proof {
                        assert(Seq::new(kept@.len(), |x: int| kept@[x]@) =~= ivs.take(
                            j + 1,
                        ).filter(keep_ipt));
                        assert(removed@ =~= dropped_lids(rs.take(i as int), now) + ivs.take(
                            j + 1,
                        ).filter(|x: IptView| !ipt_keep(x, now)).map_values(|x: IptView| x.lid));
                    }
                } else {
                    removed.push(ip.lid);
                    proof {
                        assert(Seq::new(kept@.len(), |x: int| kept@[x]@) =~= ivs.take(
                            j + 1,
                        ).filter(keep_ipt));
                        assert(removed@ =~= dropped_lids(rs.take(i as int), now) + ivs.take(
                            j + 1,
                        ).filter(|x: IptView| !ipt_keep(x, now)).map_values(|x: IptView| x.lid));
                    }
                }
                j += 1;
            }
            proof {
                assert(ivs.take(n_ipts as int) =~= ivs);
            }
            let rel2 = IptRelay {
                relay: rel.relay,
                planned_retirement: rel.planned_retirement,
                ipts: kept,
            };
            assert(rel2@ =~= gc_relay(rs[i as int], now));
            proof {
                assert(gc_ipts(rs.take(i + 1), now) =~= gc_ipts(rs.take(i as int), now).push(
                    gc_relay(rs[i as int], now),
                ));
                reveal_with_fuel(Seq::filter, 2);
                assert(gc_ipts(rs.take(i + 1), now).drop_last() =~= gc_ipts(
                    rs.take(i as int),
                    now,
                ));
                assert(dropped_lids(rs.take(i + 1), now) == dropped_lids(rs.take(i as int), now)
                    + dropped_of_relay(rs[i as int], now)) by {
                    assert(rs.take(i + 1).drop_last() =~= rs.take(i as int));
                    assert(rs.take(i + 1).last() == rs[i as int]);
                }
            }
            let retire = rel2.should_retire(now);
            let empty = rel2.ipts.len() == 0;
            if !(retire && empty) {
                assert(keep_rel(rel2@));
                new_relays.push(rel2);
                proof {
                    assert(relays_view(new_relays) =~= gc_relays(gc_ipts(rs.take(i + 1), now), now));
                }
            } else {
                assert(!keep_rel(rel2@));
                proof {
                    assert(relays_view(new_relays) =~= gc_relays(gc_ipts(rs.take(i + 1), now), now));
                }
            }
            proof {
                assert(removed@ =~= dropped_lids(rs.take(i + 1), now));
            }
            i += 1;
        }
        proof {
            assert(rs.take(n as int) =~= rs);
        }
        self.irelays = new_relays;
        removed
    }

    /// The earliest deadline among all relays: a planned retirement, or a
    /// non-current IPT's descriptor expiry, whichever is in the future and
    /// comes first.
    fn relays_wake_exec(&self, now: u64) -> (r: Option<u64>)
        ensures
            r == relays_wake(self.rv(), now),
    {
        let ghost rs = self.rv();
        let n = self.irelays.len();
        let mut acc: Option<u64> = None;
        let mut i: usize = 0;
        while i < n
            invariant
                i <= n,
                n == rs.len(),
                rs == self.rv(),
                acc == relays_wake(rs.take(i as int), now),
            decreases n - i,
        {
            proof {
                assert(rs.take(i + 1).drop_last() =~= rs.take(i as int));
                assert(rs.take(i + 1).last() == rs[i as int]);
            }
            let rel_retire: Option<u64> = if self.irelays[i].planned_retirement > now {
                Some(self.irelays[i].planned_retirement)
            } else {
                None
            };
            let ghost ivs = rs[i as int].ipts;
            let n_ipts = self.irelays[i].ipts.len();
            let mut iacc: Option<u64> = None;
            let mut j: usize = 0;
            while j < n_ipts
                invariant
                    j <= n_ipts,
                    i < n,
                    n == rs.len(),
                    rs == self.rv(),
                    ivs == rs[i as int].ipts,
                    n_ipts == ivs.len(),
                    n_ipts == self.irelays@[i as int].ipts@.len(),
                    iacc == ipts_wake(ivs.take(j as int), now),
                decreases n_ipts - j,
            {
                proof {
                    assert(ivs.take(j + 1).drop_last() =~= ivs.take(j as int));
                    assert(ivs.take(j + 1).last() == ivs[j as int]);
                }
                let ip = &self.irelays[i].ipts[j];
                let w: Option<u64> = if !ip.is_current {
                    match ip.last_descriptor_expiry_including_slop {
                        Some(last) => if last > now {
                            Some(last)
                        } else {
                            None
                        },
                        None => None,
                    }
                } else {
                    None
                };
                assert(w == ipt_wake(ivs[j as int], now));
                iacc = crate::seqx::opt_min_exec(iacc, w);
                j += 1;
            }
            proof {
                assert(ivs.take(n_ipts as int) =~= ivs);
            }
            let rel_wake = crate::seqx::opt_min_exec(rel_retire, iacc);
            assert(rel_wake == relay_wake(rs[i as int], now));
            acc = crate::seqx::opt_min_exec(acc, rel_wake);
            i += 1;
        }
        proof {
            assert(rs.take(n as int) =~= rs);
        }
        acc
    }

    /// The first relay that should get a new introduction point, if any.
    fn fill_index_exec(&self, now: u64) -> (r: Option<usize>)
        ensures
            match r {
                Some(i) => fill_index(self.rv(), now) == Some(i as int),
                None => fill_index(self.rv(), now) is None,
            },
    {
        let ghost rs = self.rv();
        let ghost p = |x: IptRelayView| relay_needs_ipt(x, now);
        let n = self.irelays.len();
        let mut i: usize = 0;
        while i < n
            invariant
                i <= n,
                n == rs.len(),
                rs == self.rv(),
                p == (|x: IptRelayView| relay_needs_ipt(x, now)),
                forall|j: int| 0 <= j < i ==> !p(#[trigger] rs[j]),
            decreases n - i,
        {
            let retire = self.irelays[i].should_retire(now);
            let has_current = match self.irelays[i].current_ipt_index() {
                Some(_) => true,
                None => false,
            };
            if !retire && !has_current {
                proof {
                    lemma_first_where_is(rs, p, i as int);
                }
                return Some(i);
            }
            i += 1;
        }
        proof {
            lemma_first_where_none(rs, p);
        }
        None
    }

    /// Decide what to do next on a clean state: fill in a missing IPT
    /// (unless creation is suspended this cycle), select a new relay if
    /// the pool looks thin, or wait until the earliest deadline.
    pub fn next_action(&self, now: u64) -> (r: Progress)
        ensures
            r == next_action_spec(
                self.rv(),
                now,
                self.spec_target(),
                self.last_irelay_selection_ok,
                self.create_retry_wake,
            ),
    {
        if self.create_retry_wake.is_none() {
            if let Some(i) = self.fill_index_exec(now) {
                return Progress::NeedIpt { relay_index: i };
            }
        }
        let n_goodish = self.count_goodish_current();
        let target = self.target_n_intro_points();
        if n_goodish < target && self.irelays.len() < self.max_n_intro_relays()
            && self.last_irelay_selection_ok {
            return Progress::NeedRelay;
        }
        let wake = crate::seqx::opt_min_exec(self.relays_wake_exec(now), self.create_retry_wake);
        Progress::Idle { wake }
    }

    /// One idempotent progress pass.
    ///
    /// Either rotates out one aged IPT (`Changed`: call again), or
    /// collects garbage and reports the next piece of outside work: a
    /// relay index that needs a new IPT, the need for a new relay, or the
    /// time to sleep until.  The second component lists the IPTs dropped
    /// by garbage collection, for the caller to tear down.
    pub fn progress_once(&mut self, now: u64) -> (r: (Progress, Vec<IptLocalId>))
        ensures
            final(self).config == old(self).config,
            final(self).last_irelay_selection_ok == old(self).last_irelay_selection_ok,
            final(self).create_retry_wake == old(self).create_retry_wake,
            ({
                let rs0 = old(self).rv();
                let target = old(self).spec_target();
                if rotate_applicable(rs0, now, target) {
                    &&& r.0 == Progress::Changed
                    &&& final(self).rv() == rotate_result(rs0, now)
                    &&& r.1@.len() == 0
                } else {
                    &&& final(self).rv() == gc_relays(gc_ipts(rs0, now), now)
                    &&& r.1@ == dropped_lids(rs0, now)
                    &&& r.0 == next_action_spec(
                        final(self).rv(),
                        now,
                        target,
                        old(self).last_irelay_selection_ok,
                        old(self).create_retry_wake,
                    )
                }
            }),
    {
        if self.rotate_out_aged(now) {
            return (Progress::Changed, Vec::new());
        }
        let removed = self.collect_garbage(now);
        let action = self.next_action(now);
        (action, removed)
    }

    /// Accept a relay selected from the directory, with the planned
    /// retirement instant drawn for it.
    ///
    /// The relay is refused (and nothing changes) if it shares an identity
    /// with a relay already in use, or if the relay list is already at its
    /// cap of twice the target.
    pub fn add_relay(&mut self, relay: RelayIds, planned_retirement: u64) -> (added: bool)
        ensures
            final(self).config == old(self).config,
            final(self).last_irelay_selection_ok == old(self).last_irelay_selection_ok,
            final(self).create_retry_wake == old(self).create_retry_wake,
            added == (!relay_in_use(old(self).rv(), relay) && old(self).rv().len() < 2 * old(
                self,
            ).spec_target()),
            added ==> final(self).rv() == old(self).rv().push(
                IptRelayView { relay, planned_retirement, ipts: Seq::empty() },
            ),
            !added ==> final(self).irelays == old(self).irelays,
    {
        let ghost rs = self.rv();
        let n = self.irelays.len();
        let mut i: usize = 0;
        while i < n
            invariant
                i <= n,
                n == rs.len(),
                rs == self.rv(),
                self == old(self),
                forall|k: int|
                    0 <= k < i ==> !spec_shares_any_id(#[trigger] rs[k].relay, relay),
            decreases n - i,
        {
            if self.irelays[i].relay.shares_any_id_with(&relay) {
                proof {
                    assert(rs[i as int].relay == self.irelays@[i as int]@.relay);
                    assert(spec_shares_any_id(rs[i as int].relay, relay));
                    assert(relay_in_use(rs, relay));
                }
                return false;
            }
            i += 1;
        }
        assert(!relay_in_use(rs, relay));
        if n >= self.max_n_intro_relays() {
            return false;
        }
        self.irelays.push(IptRelay { relay, planned_retirement, ipts: Vec::new() });
        proof {
            assert(self.rv() =~~= rs.push(
                IptRelayView { relay, planned_retirement, ipts: Seq::empty() },
            ));
        }
        true
    }

    /// Create a new introduction point at the relay at `relay_index`.
    ///
    /// The caller supplies the freshly generated identifier and candidate
    /// key pairs, and reports whether the replay log for `lid` could be
    /// opened.  The key pairs are loaded from (or entered into) the
    /// keystore first — `expect_existing` says whether they are supposed
    /// to be there already, as when reviving a persisted IPT — and only
    /// then is the IPT recorded, so a recorded IPT always has its keys
    /// stored.
    ///
    /// Keys present when they should be fresh are a fatal error; a replay
    /// log that could not be opened suspends IPT creation for the rest of
    /// the cycle and schedules a retry.
    pub fn create_ipt_at_relay(
        &mut self,
        ks: &mut Keystore,
        relay_index: usize,
        lid: IptLocalId,
        fresh_sid: KeyPairValue,
        fresh_ntor: KeyPairValue,
        now: u64,
        expect_existing: bool,
        replay_log_ok: bool,
        is_current: bool,
    ) -> (r: Result<(), CreateIptError>)
        requires
            relay_index < old(self).rv().len(),
            forall|k: int, j: int|
                0 <= k < old(self).rv().len() && 0 <= j < old(self).rv()[k].ipts.len() ==> (
                #[trigger] old(self).rv()[k].ipts[j]).lid != lid,
        ensures
            final(self).config == old(self).config,
            final(self).last_irelay_selection_ok == old(self).last_irelay_selection_ok,
            final(ks).has_identity == old(ks).has_identity,
            ({
                let ntor0 = old(ks).spec_lookup(IptKeyRole::KHssNtor, lid);
                let sid0 = old(ks).spec_lookup(IptKeyRole::KSid, lid);
                let ntor_bad = !expect_existing && ntor0 is Some;
                let sid_bad = !expect_existing && sid0 is Some;
                let k_ntor = if ntor0 is Some && expect_existing {
                    ntor0->Some_0
                } else {
                    fresh_ntor
                };
                let k_sid = if sid0 is Some && expect_existing {
                    sid0->Some_0
                } else {
                    fresh_sid
                };
                if ntor_bad || sid_bad {
                    &&& r == Err::<(), CreateIptError>(
                        CreateIptError::Fatal(FatalError::IptKeysFoundUnexpectedly { lid }),
                    )
                    &&& final(self).irelays == old(self).irelays
                    &&& final(self).create_retry_wake == old(self).create_retry_wake
                    &&& final(ks).spec_lookup(IptKeyRole::KSid, lid) == sid0
                    &&& final(ks).spec_lookup(IptKeyRole::KHssNtor, lid) == (if ntor_bad {
                        ntor0
                    } else {
                        Some(fresh_ntor)
                    })
                    &&& forall|r2: IptKeyRole, l2: IptLocalId|
                        l2 != lid ==> final(ks).spec_lookup(r2, l2) == old(ks).spec_lookup(r2, l2)
                } else {
                    &&& final(ks).spec_lookup(IptKeyRole::KHssNtor, lid) == Some(k_ntor)
                    &&& final(ks).spec_lookup(IptKeyRole::KSid, lid) == Some(k_sid)
                    &&& forall|r2: IptKeyRole, l2: IptLocalId|
                        l2 != lid ==> final(ks).spec_lookup(r2, l2) == old(ks).spec_lookup(r2, l2)
                    &&& if !replay_log_ok {
                        &&& r == Err::<(), CreateIptError>(CreateIptError::OpenReplayLog)
                        &&& final(self).irelays == old(self).irelays
                        &&& final(self).create_retry_wake == Some(sat_add(now, STORAGE_RETRY_MS))
                    } else {
                        &&& r == Ok::<(), CreateIptError>(())
                        &&& final(self).create_retry_wake == old(self).create_retry_wake
                        &&& final(self).rv() == old(self).rv().update(
                            relay_index as int,
                            IptRelayView {
                                ipts: old(self).rv()[relay_index as int].ipts.push(
                                    IptView {
                                        lid,
                                        k_sid,
                                        k_hss_ntor: k_ntor,
                                        status_last: TrackedStatusView::Establishing {
                                            started: now,
                                        },
                                        last_descriptor_expiry_including_slop: None,
                                        is_current,
                                    },
                                ),
                                ..old(self).rv()[relay_index as int]
                            },
                        )
                        &&& keys_invariant(old(self).rv(), *old(ks)) ==> keys_invariant(
                            final(self).rv(),
                            *final(ks),
                        )
                    }
                }
            }),
    {
        let ghost rs = self.rv();
        let k_ntor = match ks.get_or_generate(IptKeyRole::KHssNtor, lid, fresh_ntor, expect_existing) {
            Ok(k) => k,
            Err(e) => {
                return Err(CreateIptError::Fatal(e));
            },
        };
        let k_sid = match ks.get_or_generate(IptKeyRole::KSid, lid, fresh_sid, expect_existing) {
            Ok(k) => k,
            Err(e) => {
                return Err(CreateIptError::Fatal(e));
            },
        };
        if !replay_log_ok {
            self.note_ipt_create_failed(now);
            return Err(CreateIptError::OpenReplayLog);
        }
        let mut rel = self.irelays.remove(relay_index);
        let ipt = crate::ipt::Ipt {
            lid,
            k_sid,
            k_hss_ntor: k_ntor,
            status_last: crate::ipt::TrackedStatus::Establishing { started: now },
            last_descriptor_expiry_including_slop: None,
            is_current,
        };
        let ghost iv = ipt@;
        rel.ipts.push(ipt);
        proof {
            assert(rel@.ipts =~= rs[relay_index as int].ipts.push(iv));
            assert(rel@ =~= IptRelayView {
                ipts: rs[relay_index as int].ipts.push(iv),
                ..rs[relay_index as int]
            });
        }
        self.irelays.insert(relay_index, rel);
        proof {
            assert(self.rv() =~= rs.update(
                relay_index as int,
                IptRelayView {
                    ipts: rs[relay_index as int].ipts.push(iv),
                    ..rs[relay_index as int]
                },
            ));
            if keys_invariant(rs, *old(ks)) {
                assert forall|k: int, j: int|
                    0 <= k < self.rv().len() && 0 <= j < self.rv()[k].ipts.len() implies ipt_keys_stored(
                    *ks,
                    #[trigger] self.rv()[k].ipts[j],
                ) by {
                    let newv = self.rv();
                    if k == relay_index as int && j == newv[k].ipts.len() - 1 {
                        assert(newv[k].ipts[j] == iv);
                    } else {
                        assert(newv[k].ipts[j] == rs[k].ipts[j]);
                        assert(ipt_keys_stored(*old(ks), rs[k].ipts[j]));
                        assert(rs[k].ipts[j].lid != lid);
                    }
                }
            }
        }
        Ok(())
    }

    /// Update the manager's tracking for one introduction point after a
    /// report from its establisher.
    ///
    /// A report for an IPT the manager no longer knows is ignored (the
    /// establisher is a task; its last words can arrive late).  A wish to
    /// retire clears the IPT's current mark.  The status transition
    /// follows [`updated_status`].
    pub fn handle_ipt_status_update(
        &mut self,
        lid: IptLocalId,
        update: crate::ipt::IptStatus,
        now: u64,
    )
        ensures
            final(self).config == old(self).config,
            final(self).last_irelay_selection_ok == old(self).last_irelay_selection_ok,
            final(self).create_retry_wake == old(self).create_retry_wake,
            final(self).rv() == status_update_result(old(self).rv(), lid, update@, now),
    {
        let ghost rs = self.rv();
        let ghost st = update@;
        let ghost prel = |x: IptRelayView| relay_has_lid(x, lid);
        let n = self.irelays.len();
        let mut k: usize = 0;
        while k < n
            invariant
                k <= n,
                n == rs.len(),
                rs == self.rv(),
                self == old(self),
                st == update@,
                prel == (|x: IptRelayView| relay_has_lid(x, lid)),
                forall|m: int| 0 <= m < k ==> !prel(#[trigger] rs[m]),
            decreases n - k,
        {
            if let Some(j) = relay_lid_index(&self.irelays[k], lid) {
                proof {
                    assert(prel(rs[k as int]));
                    lemma_first_where_is(rs, prel, k as int);
                    lemma_first_where_sound(rs[k as int].ipts, |x: IptView| ipt_has_lid(x, lid));
                }
                let mut rel = self.irelays.remove(k);
                let mut ip = rel.ipts.remove(j);
                let ghost ip0 = ip@;
                let started: Option<u64> = match &ip.status_last {
                    crate::ipt::TrackedStatus::Establishing { started } => Some(*started),
                    crate::ipt::TrackedStatus::Faulty { started } => *started,
                    crate::ipt::TrackedStatus::Good { .. } => None,
                };
                assert(started == status_started(ip0.status_last));
                let crate::ipt::IptStatus { status, wants_to_retire, n_faults: _ } = update;
                let new_status = match status {
                    crate::ipt::IptStatusStatus::Establishing => crate::ipt::TrackedStatus::Establishing {
                        started: match started {
                            Some(s) => s,
                            None => now,
                        },
                    },
                    crate::ipt::IptStatusStatus::Good(d) => crate::ipt::TrackedStatus::Good {
                        time_to_establish: match started {
                            Some(s) => if now >= s {
                                Some(now - s)
                            } else {
                                None
                            },
                            None => None,
                        },
                        details: d,
                    },
                    crate::ipt::IptStatusStatus::Faulty => crate::ipt::TrackedStatus::Faulty {
                        started,
                    },
                };
                ip.status_last = new_status;
                if wants_to_retire {
                    ip.is_current = false;
                }
                proof {
                    assert(ip@ =~~= updated_ipt(ip0, st, now));
                }
                let ghost ipn = ip@;
                rel.ipts.insert(j, ip);
                proof {
                    assert(rel@.ipts =~= rs[k as int].ipts.update(j as int, ipn));
                    assert(rel@ =~~= IptRelayView {
                        ipts: rs[k as int].ipts.update(j as int, updated_ipt(ip0, st, now)),
                        ..rs[k as int]
                    });
                }
                self.irelays.insert(k, rel);
                proof {
                    assert(self.rv() =~~= status_update_result(rs, lid, st, now));
                }
                return ;
            }
            k += 1;
        }
        proof {
            lemma_first_where_none(rs, prel);
        }
    }

    /// Copy the publisher's latest descriptor-expiry knowledge into each
    /// matching IPT.
    ///
    /// Every entry of the shared map ought to correspond to an IPT the
    /// manager knows: an IPT is recorded on disk before it can be
    /// published.
    pub fn import_new_expiry_times(&mut self, publish_set: &crate::ipt_set::PublishIptSet)
        ensures
            final(self).config == old(self).config,
            final(self).last_irelay_selection_ok == old(self).last_irelay_selection_ok,
            final(self).create_retry_wake == old(self).create_retry_wake,
            final(self).rv() == imported_all(old(self).rv(), publish_set.expiries()),
    {
        let ghost rs = self.rv();
        let ghost m = publish_set.expiries();
        let n = self.irelays.len();
        let mut new_relays: Vec<IptRelay> = Vec::new();
        let mut k: usize = 0;
        while k < n
            invariant
                k <= n,
                n == rs.len(),
                self.config == old(self).config,
                self.last_irelay_selection_ok == old(self).last_irelay_selection_ok,
                self.create_retry_wake == old(self).create_retry_wake,
                m == publish_set.expiries(),
                self.irelays@.len() == n - k,
                forall|x: int| 0 <= x < n - k ==> #[trigger] self.irelays@[x]@ == rs[k + x],
                new_relays@.len() == k,
                forall|x: int| 0 <= x < k ==> #[trigger] new_relays@[x]@ == imported_relay(rs[x], m),
            decreases n - k,
        {
            let mut rel = self.irelays.remove(0);
            let ghost ivs = rs[k as int].ipts;
            assert(rel@ == rs[k as int]);
            let n_ipts = rel.ipts.len();
            let mut kept: Vec<crate::ipt::Ipt> = Vec::new();
            let mut j: usize = 0;
            while j < n_ipts
                invariant
                    j <= n_ipts,
                    n_ipts == ivs.len(),
                    m == publish_set.expiries(),
                    rel.relay == rs[k as int].relay,
                    rel.planned_retirement == rs[k as int].planned_retirement,
                    rel.ipts@.len() == n_ipts - j,
                    forall|x: int| 0 <= x < n_ipts - j ==> #[trigger] rel.ipts@[x]@ == ivs[j + x],
                    kept@.len() == j,
                    forall|x: int| 0 <= x < j ==> #[trigger] kept@[x]@ == imported_ipt(ivs[x], m),
                decreases n_ipts - j,
            {
                let mut ip = rel.ipts.remove(0);
                assert(ip@ == ivs[j as int]);
                match publish_set.expiry_of(ip.lid) {
                    Some(v) => {
                        ip.last_descriptor_expiry_including_slop = Some(v);
                    },
                    None => {},
                }
                assert(ip@ =~~= imported_ipt(ivs[j as int], m));
                kept.push(ip);
                j += 1;
            }
            let rel2 = IptRelay {
                relay: rel.relay,
                planned_retirement: rel.planned_retirement,
                ipts: kept,
            };
            assert(rel2@ =~~= imported_relay(rs[k as int], m));
            new_relays.push(rel2);
            k += 1;
        }
        self.irelays = new_relays;
        proof {
            assert(self.rv() =~~= imported_all(rs, m));
        }
    }

    /// The positions `(relay, ipt)` of the good current IPTs, in state
    /// order.
    fn good_current_positions(&self) -> (r: Vec<(usize, usize)>)
        ensures
            ({
                let g = good_current_ipts(self.rv());
                &&& r@.len() == g.len()
                &&& forall|m: int|
                    0 <= m < r@.len() ==> {
                        let kj = #[trigger] r@[m];
                        &&& (kj.0 as int) < self.rv().len()
                        &&& (kj.1 as int) < self.rv()[kj.0 as int].ipts.len()
                        &&& self.rv()[kj.0 as int].ipts[kj.1 as int] == g[m]
                        &&& relay_good_current(self.rv()[kj.0 as int])
                        &&& relay_current_idx(self.rv()[kj.0 as int]) == Some(kj.1 as int)
                    }
            }),
    {
        let ghost rs = self.rv();
        let ghost pgood = |x: IptRelayView| relay_good_current(x);
        let n = self.irelays.len();
        let mut out: Vec<(usize, usize)> = Vec::new();
        let mut i: usize = 0;
        while i < n
            invariant
                i <= n,
                n == rs.len(),
                rs == self.rv(),
                pgood == (|x: IptRelayView| relay_good_current(x)),
                out@.len() == good_current_ipts(rs.take(i as int)).len(),
                forall|m: int|
                    0 <= m < out@.len() ==> {
                        let kj = #[trigger] out@[m];
                        &&& (kj.0 as int) < i as int
                        &&& (kj.1 as int) < rs[kj.0 as int].ipts.len()
                        &&& rs[kj.0 as int].ipts[kj.1 as int] == good_current_ipts(
                            rs.take(i as int),
                        )[m]
                        &&& relay_good_current(rs[kj.0 as int])
                        &&& relay_current_idx(rs[kj.0 as int]) == Some(kj.1 as int)
                    },
            decreases n - i,
        {
            let ghost pre = good_current_ipts(rs.take(i as int));
            proof {
                assert(rs.take(i + 1).drop_last() =~= rs.take(i as int));
                reveal_with_fuel(Seq::filter, 2);
                assert(rs.take(i + 1) == rs.take(i as int).push(rs[i as int]));
                if pgood(rs[i as int]) {
                    assert(rs.take(i + 1).filter(pgood) =~= rs.take(i as int).filter(pgood).push(
                        rs[i as int],
                    ));
                    assert(good_current_ipts(rs.take(i + 1)) =~= pre.push(
                        relay_current(rs[i as int]),
                    ));
                } else {
                    assert(rs.take(i + 1).filter(pgood) =~= rs.take(i as int).filter(pgood));
                    assert(good_current_ipts(rs.take(i + 1)) =~= pre);
                }
            }
            if let Some(j) = self.irelays[i].current_ipt_index() {
                proof {
                    lemma_first_where_sound(rs[i as int].ipts, |x: IptView| crate::ipt::ipt_current(x));
                }
                if self.irelays[i].ipts[j].is_good() {
                    assert(relay_good_current(rs[i as int]));
                    out.push((i, j));
                }
            }
            i += 1;
        }
        proof {
            assert(rs.take(n as int) =~= rs);
        }
        out
    }

    /// Compute what to hand to the publisher.
    ///
    /// Returns the set to publish (or `None` to publish nothing), the
    /// identifiers of the chosen IPTs — the caller tells their
    /// establishers to start accepting introductions — and, when
    /// publication is held off waiting for a young IPT, the time to
    /// reconsider.
    pub fn compute_publish_set(&self, now: u64) -> (r: (
        Option<crate::ipt_set::IptSet>,
        Vec<IptLocalId>,
        Option<u64>,
    ))
        ensures
            ({
                let pv = publish_view(self.rv(), now, self.spec_target());
                match pv {
                    None => r.0 is None,
                    Some(sv) => r.0 matches Some(s) && s@ == sv,
                }
            }),
            r.1@ == (if publish_lifetime(self.rv(), now, self.spec_target()) is Some {
                selected_ipts(self.rv(), self.spec_target()).map_values(|i: IptView| i.lid)
            } else {
                Seq::<IptLocalId>::empty()
            }),
            r.2 == (if publish_lifetime(self.rv(), now, self.spec_target()) is None {
                hold_off_wake(self.rv(), now)
            } else {
                None
            }),
    {
        let ghost rs = self.rv();
        let ghost g = good_current_ipts(rs);
        let target = self.target_n_intro_points();
        let pos = self.good_current_positions();
        let g_len = pos.len();

        // The fastest known establish time among the good current IPTs.
        let mut fastest: Option<u64> = None;
        let mut m: usize = 0;
        while m < g_len
            invariant
                m <= g_len,
                g_len == g.len(),
                g == good_current_ipts(self.rv()),
                fastest == fastest_tte(g.take(m as int)),
                forall|x: int|
                    0 <= x < g_len ==> {
                        let kj = #[trigger] pos@[x];
                        &&& (kj.0 as int) < self.rv().len()
                        &&& (kj.1 as int) < self.rv()[kj.0 as int].ipts.len()
                        &&& self.rv()[kj.0 as int].ipts[kj.1 as int] == g[x]
                    },
                pos@.len() == g_len,
            decreases g_len - m,
        {
            proof {
                assert(g.take(m + 1).drop_last() =~= g.take(m as int));
                assert(g.take(m + 1).last() == g[m as int]);
            }
            let (k, j) = pos[m];
            let v: Option<u64> = match &self.irelays[k].ipts[j].status_last {
                crate::ipt::TrackedStatus::Good { time_to_establish, .. } => *time_to_establish,
                _ => None,
            };
            assert(v == ipt_tte(g[m as int]));
            fastest = crate::seqx::opt_min_exec(fastest, v);
            m += 1;
        }
        proof {
            assert(g.take(g_len as int) =~= g);
        }

        // The earliest start among current IPTs still establishing.
        let n = self.irelays.len();
        let mut earliest: Option<u64> = None;
        let mut i: usize = 0;
        while i < n
            invariant
                i <= n,
                n == rs.len(),
                rs == self.rv(),
                earliest == earliest_establishing(rs.take(i as int)),
            decreases n - i,
        {
            proof {
                assert(rs.take(i + 1).drop_last() =~= rs.take(i as int));
                assert(rs.take(i + 1).last() == rs[i as int]);
            }
            let e: Option<u64> = match self.irelays[i].current_ipt_index() {
                Some(j) => {
                    proof {
                        lemma_first_where_sound(
                            rs[i as int].ipts,
                            |x: IptView| crate::ipt::ipt_current(x),
                        );
                    }
                    match &self.irelays[i].ipts[j].status_last {
                        crate::ipt::TrackedStatus::Establishing { started } => Some(*started),
                        _ => None,
                    }
                },
                None => None,
            };
            assert(e == relay_establishing_started(rs[i as int]));
            earliest = crate::seqx::opt_min_exec(earliest, e);
            i += 1;
        }
        proof {
            assert(rs.take(n as int) =~= rs);
        }

        // Decide the lifetime, and the wake time if holding off.
        let mut lifetime: Option<u64> = None;
        let mut wake: Option<u64> = None;
        if g_len >= target {
            lifetime = Some(IPT_PUBLISH_CERTAIN_MS);
        } else if g_len == 0 {
        } else {
            let mut holding = false;
            if let Some(t) = fastest {
                if t <= u64::MAX / 2 {
                    let twot = 2 * t;
                    if let Some(e) = earliest {
                        if e > u64::MAX - twot {
                            holding = true;
                            wake = Some(u64::MAX);
                        } else if now < e + twot {
                            holding = true;
                            wake = Some(e + twot);
                        }
                    }
                }
            }
            assert(holding == hold_off(rs, now));
            if !holding {
                lifetime = Some(IPT_PUBLISH_UNCERTAIN_MS);
                wake = None;
            } else {
                assert(wake == hold_off_wake(rs, now));
            }
        }

        let lt = match lifetime {
            None => {
                return (None, Vec::new(), wake);
            },
            Some(lt) => lt,
        };

        // Select the last up-to-target good current IPTs and build their
        // publication records.
        let start = if g_len <= target {
            0
        } else {
            g_len - target
        };
        let ghost sel = selected_ipts(rs, self.spec_target());
        proof {
            if g.len() <= self.spec_target() {
                assert(sel =~= g);
            } else {
                assert(sel =~= g.subrange(g.len() - self.spec_target(), g.len() as int));
            }
        }
        let mut out: Vec<crate::ipt_set::IptInSet> = Vec::new();
        let mut lids: Vec<IptLocalId> = Vec::new();
        let mut m2: usize = start;
        while m2 < g_len
            invariant
                start <= m2 <= g_len,
                g_len == g.len(),
                g == good_current_ipts(self.rv()),
                rs == self.rv(),
                sel == selected_ipts(self.rv(), self.spec_target()),
                start == (if g.len() <= self.spec_target() {
                    0int
                } else {
                    g.len() - self.spec_target()
                }),
                forall|x: int|
                    0 <= x < g_len ==> {
                        let kj = #[trigger] pos@[x];
                        &&& (kj.0 as int) < rs.len()
                        &&& (kj.1 as int) < rs[kj.0 as int].ipts.len()
                        &&& rs[kj.0 as int].ipts[kj.1 as int] == g[x]
                        &&& relay_good_current(rs[kj.0 as int])
                        &&& relay_current_idx(rs[kj.0 as int]) == Some(kj.1 as int)
                    },
                pos@.len() == g_len,
                out@.len() == m2 - start,
                lids@.len() == m2 - start,
                forall|x: int|
                    0 <= x < out@.len() ==> #[trigger] out@[x]@
                        == (crate::ipt_set::IptInSetView {
                        ipt: for_publish_view(sel[x]),
                        lid: sel[x].lid,
                    }),
                forall|x: int| 0 <= x < lids@.len() ==> #[trigger] lids@[x] == sel[x].lid,
            decreases g_len - m2,
        {
            let (k, j) = pos[m2];
            proof {
                assert(sel[m2 - start] == g[m2 as int]);
                assert(relay_current(rs[k as int]) == rs[k as int].ipts[j as int]);
                assert(crate::ipt::ipt_is_good(g[m2 as int]));
            }
            let ip = &self.irelays[k].ipts[j];
            let pub_ipt: crate::ipt_set::PublishIpt = match &ip.status_last {
                crate::ipt::TrackedStatus::Good { details, .. } => {
                    let mut ls: Vec<crate::ids::LinkSpecifier> = Vec::new();
                    let mut q: usize = 0;
                    while q < details.link_specifiers.len()
                        invariant
                            q <= details.link_specifiers.len(),
                            ls@ == details.link_specifiers@.subrange(0, q as int),
                        decreases details.link_specifiers.len() - q,
                    {
                        ls.push(details.link_specifiers[q]);
                        q += 1;
                    }
                    assert(ls@ == details.link_specifiers@);
                    crate::ipt_set::PublishIpt {
                        link_specifiers: ls,
                        ipt_kp_ntor: details.ipt_kp_ntor,
                        kp_hs_ipt_sid: ip.k_sid.public,
                        kp_hss_ntor: ip.k_hss_ntor.public,
                    }
                },
                _ => {
                    proof {
                        assert(false);
                    }
                    crate::ipt_set::PublishIpt {
                        link_specifiers: Vec::new(),
                        ipt_kp_ntor: ip.k_sid.public,
                        kp_hs_ipt_sid: ip.k_sid.public,
                        kp_hss_ntor: ip.k_hss_ntor.public,
                    }
                },
            };
            assert(pub_ipt@ =~= for_publish_view(sel[m2 - start]));
            lids.push(ip.lid);
            out.push(crate::ipt_set::IptInSet { ipt: pub_ipt, lid: ip.lid });
            m2 += 1;
        }
        let set = crate::ipt_set::IptSet { ipts: out, lifetime: lt };
        proof {
            assert(sel.len() == g_len - start);
            assert(set@ =~~= publish_view(rs, now, self.spec_target())->Some_0);
            assert(lids@ =~= sel.map_values(|i: IptView| i.lid));
        }
        (Some(set), lids, None)
    }

    /// Run progress passes until one finds nothing more to change, and
    /// say what outside work (if any) is needed next.
    ///
    /// Each pass that changes something is one rotation step, so on
    /// success the state is the rotation fixpoint of the old state with
    /// one garbage collection applied, and the returned identifiers are
    /// exactly the IPTs that collection dropped, in order, for the caller
    /// to tear down.  A pass is owed for every current IPT at most, so the
    /// safety bound of `10000 × (target + 1)` passes is only ever reached
    /// — the fatal error `ManagerLooping` — if the state machine is
    /// broken; with fewer current IPTs than the bound, success is
    /// promised.
    pub fn progress_pump(&mut self, now: u64) -> (r: Result<
        (Progress, Vec<IptLocalId>),
        FatalError,
    >)
        ensures
            final(self).config == old(self).config,
            final(self).last_irelay_selection_ok == old(self).last_irelay_selection_ok,
            final(self).create_retry_wake == old(self).create_retry_wake,
            total_current_ipts(old(self).rv()) < (old(self).spec_target() + 1) * 10000 ==> r
                is Ok,
            r matches Ok(pr) ==> {
                let settled = rotate_fix(
                    old(self).rv(),
                    now,
                    old(self).spec_target(),
                    (old(self).spec_target() + 1) * 10000,
                );
                &&& !(pr.0 is Changed)
                &&& final(self).rv() == gc_relays(gc_ipts(settled, now), now)
                &&& pr.1@ == dropped_lids(settled, now)
                &&& pr.0 == next_action_spec(
                    final(self).rv(),
                    now,
                    old(self).spec_target(),
                    old(self).last_irelay_selection_ok,
                    old(self).create_retry_wake,
                )
            },
            r matches Err(e) ==> e == FatalError::ManagerLooping,
    {
        let limit: usize = (self.target_n_intro_points() + 1) * 10000;
        let mut removed: Vec<IptLocalId> = Vec::new();
        let mut iters: usize = 0;
        while iters < limit
            invariant
                self.config == old(self).config,
                self.last_irelay_selection_ok == old(self).last_irelay_selection_ok,
                self.create_retry_wake == old(self).create_retry_wake,
                self.spec_target() == old(self).spec_target(),
                iters <= limit,
                limit == (old(self).spec_target() + 1) * 10000,
                removed@.len() == 0,
                self.rv() == rotate_fix(
                    old(self).rv(),
                    now,
                    old(self).spec_target(),
                    iters as nat,
                ),
                iters as nat + total_current_ipts(self.rv()) <= total_current_ipts(
                    old(self).rv(),
                ),
            decreases limit - iters,
        {
            let ghost pre = self.rv();
            let (action, mut rm) = self.progress_once(now);
            removed.append(&mut rm);
            match action {
                Progress::Changed => {
                    proof {
                        lemma_rotate_fix_step(
                            old(self).rv(),
                            now,
                            old(self).spec_target(),
                            iters as nat,
                        );
                        lemma_rotate_decreases_current(pre, now);
                    }
                },
                _ => {
                    proof {
                        lemma_rotate_fix_stable(
                            old(self).rv(),
                            now,
                            old(self).spec_target(),
                            iters as nat,
                            (old(self).spec_target() + 1) * 10000,
                        );
                    }
                    return Ok((action, removed));
                },
            }
            iters += 1;
        }
        Err(FatalError::ManagerLooping)
    }

    /// Install a new configuration snapshot; selection may be retried.
    pub fn set_config(&mut self, config: OnionServiceConfig)
        ensures
            final(self).config == config,
            final(self).last_irelay_selection_ok,
            final(self).irelays == old(self).irelays,
            final(self).create_retry_wake == old(self).create_retry_wake,
    {
        self.config = config;
        self.last_irelay_selection_ok = true;
    }
}

} // verus!
