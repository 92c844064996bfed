//! The descriptor publisher's state: per-time-period HsDir lists with
//! their clean/dirty marks, the publish-status machine, the upload rate
//! limit, and the retry policy for failed uploads.
//!
//! The publisher uploads a freshly built and signed descriptor to every
//! responsible directory relay (HsDir) of each active time period.  An
//! HsDir is `Dirty` while it still needs the current descriptor and
//! `Clean` once an upload with a fresh enough revision counter succeeded.
//! The uploads themselves (circuits, streams, signing) happen outside;
//! this module decides what to upload where and records the outcomes.

use vstd::prelude::*;
use crate::ids::{IptLocalId, RelayIds, U256};
use crate::ipt_set::{IptSet, PublishIptSet};
use crate::revision::TimePeriod;
use crate::seqx::{lemma_first_where_is, lemma_first_where_none, lemma_first_where_sound, seq_first_where};

verus! {

/// The upload rate-limiting threshold, in milliseconds: uploads start at
/// most once a minute.
pub const UPLOAD_RATE_LIM_THRESHOLD_MS: u64 = 60000;

/// The most upload tasks run at once per time period.
pub const MAX_CONCURRENT_UPLOADS: usize = 16;

/// The overall time allowed for uploading one descriptor, in
/// milliseconds: five minutes.
pub const UPLOAD_TIMEOUT_MS: u64 = 300000;

/// The per-attempt timeout within the retry loop, in milliseconds.
pub const UPLOAD_ATTEMPT_TIMEOUT_MS: u64 = 30000;

/// The base delay of the upload retry backoff, in milliseconds.
pub const UPLOAD_RETRY_BASE_MS: u64 = 1000;

/// The extra validity slop added beyond a descriptor's proposed lifetime
/// when recording how long a published IPT must be kept.
pub const IPT_PUBLISH_EXPIRY_SLOP_MS: u64 = 600000;

/// Whether an HsDir has the current descriptor.
#[derive(Clone, Copy, PartialEq, Eq, Structural, Debug)]
pub enum DescriptorStatus {
    /// The HsDir still needs the current descriptor.
    Dirty,
    /// The HsDir received the current descriptor.
    Clean,
}

/// Whether the reactor should initiate an upload.
#[derive(Clone, Copy, PartialEq, Eq, Structural, Debug)]
pub enum PublishStatus {
    /// An upload should start.
    UploadScheduled,
    /// Everything is uploaded; waiting for external events.
    Idle,
    /// Waiting for the manager to establish some introduction points.
    AwaitingIpts,
}

impl Default for PublishStatus {
    /// A new publisher has no introduction points yet.
    fn default() -> (r: Self)
        ensures
            r == PublishStatus::AwaitingIpts,
    {
        PublishStatus::AwaitingIpts
    }
}

/// One HsDir entry: the relay and whether it has the descriptor.
pub type HsDirEntry = (RelayIds, DescriptorStatus);

/// Whether two relay identity records are the same.
pub open spec fn rel_ids_eq(a: RelayIds, b: RelayIds) -> bool {
    a.ed == b.ed && a.rsa == b.rsa
}

/// Whether the entry is for the relay `id`.
pub open spec fn hsdir_entry_matches(e: HsDirEntry, id: RelayIds) -> bool {
    rel_ids_eq(e.0, id)
}

/// The position of `id` in an HsDir list, if present.
pub open spec fn hsdir_index(s: Seq<HsDirEntry>, id: RelayIds) -> Option<int> {
    seq_first_where(s, |e: HsDirEntry| hsdir_entry_matches(e, id))
}

/// The new HsDir list for a ring: every relay of the ring, in ring order,
/// keeping its old status where it already appears and `Dirty` where it is
/// new.
pub open spec fn compute_hsdirs_spec(ring: Seq<RelayIds>, old: Seq<HsDirEntry>) -> Seq<
    HsDirEntry,
> {
    Seq::new(
        ring.len(),
        |i: int|
            (
                ring[i],
                match hsdir_index(old, ring[i]) {
                    Some(j) => old[j].1,
                    None => DescriptorStatus::Dirty,
                },
            ),
    )
}

/// Recompute the HsDir list from a freshly determined ring, preserving
/// the status of every relay already on the previous list.
pub fn compute_hsdirs(ring: &Vec<RelayIds>, old: &Vec<HsDirEntry>) -> (r: Vec<HsDirEntry>)
    ensures
        r@ == compute_hsdirs_spec(ring@, old@),
{
    let n = ring.len();
    let mut out: Vec<HsDirEntry> = Vec::new();
    let mut i: usize = 0;
    while i < n
        invariant
            i <= n,
            n == ring@.len(),
            out@.len() == i,
            forall|x: int| 0 <= x < i ==> #[trigger] out@[x] == compute_hsdirs_spec(ring@, old@)[x],
        decreases n - i,
    {
        let id = ring[i];
        let ghost p = |e: HsDirEntry| hsdir_entry_matches(e, id);
        let m = old.len();
        let mut status = DescriptorStatus::Dirty;
        let mut found = false;
        let mut j: usize = 0;
        while j < m
            invariant
                j <= m,
                m == old@.len(),
                p == (|e: HsDirEntry| hsdir_entry_matches(e, id)),
                !found ==> forall|x: int| 0 <= x < j ==> !p(#[trigger] old@[x]),
                !found ==> status == DescriptorStatus::Dirty,
                found ==> (hsdir_index(old@, id) matches Some(jj) && status == old@[jj].1),
            decreases m - j,
        {
            if !found && old[j].0.same_as(&id) {
                proof {
                    lemma_first_where_is(old@, p, j as int);
                }
                status = old[j].1;
                found = true;
            }
            j += 1;
        }
        if !found {
            proof {
                lemma_first_where_none(old@, p);
            }
        }
        proof {
            lemma_first_where_sound(old@, p);
            assert(compute_hsdirs_spec(ring@, old@)[i as int] == (id, status));
        }
        out.push((id, status));
        i += 1;
    }
    proof {
        assert(out@ =~= compute_hsdirs_spec(ring@, old@));
    }
    out
}

/// Recomputing the HsDirs from an unchanged ring gives the list back
/// unchanged, every status preserved — provided no relay appears on the
/// list twice.
pub proof fn lemma_recompute_hsdirs_stable(old: Seq<HsDirEntry>)
    requires
        forall|a: int, b: int|
            0 <= a < b < old.len() ==> !rel_ids_eq((#[trigger] old[a]).0, (#[trigger] old[b]).0),
    ensures
        compute_hsdirs_spec(old.map_values(|e: HsDirEntry| e.0), old) == old,
{
    let ring = old.map_values(|e: HsDirEntry| e.0);
    assert forall|i: int| 0 <= i < old.len() implies #[trigger] compute_hsdirs_spec(ring, old)[i]
        == old[i] by {
        let p = |e: HsDirEntry| hsdir_entry_matches(e, ring[i]);
        assert(hsdir_entry_matches(old[i], ring[i]));
        lemma_first_where_sound(old, p);
        match seq_first_where(old, p) {
            Some(j) => {
                if j < i {
                    assert(rel_ids_eq(old[j].0, old[i].0));
                    assert(false);
                } else if j > i {
                    assert(!p(old[i]));
                    assert(false);
                }
            },
            None => {
                assert(!p(old[i]));
                assert(false);
            },
        }
    }
    assert(compute_hsdirs_spec(ring, old) =~= old);
}

/// The publisher's state for one active time period.
#[derive(Debug)]
pub struct TimePeriodContext {
    /// The time period.
    pub period: TimePeriod,
    /// The blinded identity in force during it.
    pub blind_id: U256,
    /// The responsible HsDirs, each with its descriptor status.
    pub hs_dirs: Vec<HsDirEntry>,
    /// The revision counter of the last successful upload, if any.
    pub last_successful: Option<u64>,
}

/// View of [`TimePeriodContext`].
#[verifier::ext_equal]
pub struct TimePeriodContextView {
    /// The time period.
    pub period: TimePeriod,
    /// The blinded identity.
    pub blind_id: U256,
    /// The responsible HsDirs.
    pub hs_dirs: Seq<HsDirEntry>,
    /// The last successful revision counter.
    pub last_successful: Option<u64>,
}

impl View for TimePeriodContext {
    type V = TimePeriodContextView;

    open spec fn view(&self) -> TimePeriodContextView {
        TimePeriodContextView {
            period: self.period,
            blind_id: self.blind_id,
            hs_dirs: self.hs_dirs@,
            last_successful: self.last_successful,
        }
    }
}

/// What the directory and keystore said about one active time period: the
/// period, its blinded identity, and the responsible relays.
#[derive(Debug)]
pub struct TimePeriodInput {
    /// The time period.
    pub period: TimePeriod,
    /// The blinded identity in force during it.
    pub blind_id: U256,
    /// The HsDir ring for `(blind_id, period)`, in ring order.
    pub ring: Vec<RelayIds>,
}

/// The views of a vector of period contexts.
pub open spec fn tpcs_view(v: Vec<TimePeriodContext>) -> Seq<TimePeriodContextView> {
    Seq::new(v@.len(), |i: int| v@[i]@)
}

/// The position of the context for `period`, if one exists.
pub open spec fn tpc_index(s: Seq<TimePeriodContextView>, period: TimePeriod) -> Option<int> {
    seq_first_where(s, |c: TimePeriodContextView| c.period == period)
}

/// The new context for one time period: HsDir statuses preserved from any
/// previous context for the same period; new periods start all `Dirty`;
/// the last successful counter starts unknown.
pub open spec fn new_tpc_spec(
    period: TimePeriod,
    blind_id: U256,
    ring: Seq<RelayIds>,
    old: Seq<TimePeriodContextView>,
) -> TimePeriodContextView {
    let prev = match tpc_index(old, period) {
        Some(j) => old[j].hs_dirs,
        None => Seq::empty(),
    };
    TimePeriodContextView {
        period,
        blind_id,
        hs_dirs: compute_hsdirs_spec(ring, prev),
        last_successful: None,
    }
}

/// Recompute the per-period contexts for the currently active time
/// periods, dropping periods no longer active and preserving the HsDir
/// statuses of those that stay.
pub fn compute_time_periods(inputs: &Vec<TimePeriodInput>, old: &Vec<TimePeriodContext>) -> (r:
    Vec<TimePeriodContext>)
    ensures
        r@.len() == inputs@.len(),
        forall|i: int|
            0 <= i < r@.len() ==> #[trigger] tpcs_view(r)[i] == new_tpc_spec(
                inputs@[i].period,
                inputs@[i].blind_id,
                inputs@[i].ring@,
                tpcs_view(*old),
            ),
    {
        let ghost olds = tpcs_view(*old);
        let n = inputs.len();
        let mut out: Vec<TimePeriodContext> = Vec::new();
        let mut i: usize = 0;
        while i < n
            invariant
                i <= n,
                n == inputs@.len(),
                olds == tpcs_view(*old),
                out@.len() == i,
                forall|x: int|
                    0 <= x < i ==> #[trigger] out@[x]@ == new_tpc_spec(
                        inputs@[x].period,
                        inputs@[x].blind_id,
                        inputs@[x].ring@,
                        olds,
                    ),
            decreases n - i,
        {
            let inp = &inputs[i];
            let ghost p = |c: TimePeriodContextView| c.period == inp.period;
            let m = old.len();
            let mut j: usize = 0;
            let mut hs_dirs: Option<Vec<HsDirEntry>> = None;
            while j < m
                invariant
                    j <= m,
                    m == olds.len(),
                    olds == tpcs_view(*old),
                    p == (|c: TimePeriodContextView| c.period == inp.period),
                    hs_dirs is None ==> forall|x: int| 0 <= x < j ==> !p(#[trigger] olds[x]),
                    hs_dirs matches Some(h) ==> (tpc_index(olds, inp.period) matches Some(jj)
                        && h@ == compute_hsdirs_spec(inp.ring@, olds[jj].hs_dirs)),
                decreases m - j,
            {
                if hs_dirs.is_none() && old[j].period == inp.period {
                    proof {
                        assert(olds[j as int].period == inp.period);
                        lemma_first_where_is(olds, p, j as int);
                    }
                    hs_dirs = Some(compute_hsdirs(&inp.ring, &old[j].hs_dirs));
                }
                j += 1;
            }
            let hs_dirs = match hs_dirs {
                Some(h) => h,
                None => {
                    proof {
                        lemma_first_where_none(olds, p);
                    }
                    let empty_prev: Vec<HsDirEntry> = Vec::new();
                    compute_hsdirs(&inp.ring, &empty_prev)
                },
            };
            let ctx = TimePeriodContext {
                period: inp.period,
                blind_id: inp.blind_id,
                hs_dirs,
                last_successful: None,
            };
            proof {
                assert(ctx@ =~= new_tpc_spec(inp.period, inp.blind_id, inp.ring@, olds));
            }
            out.push(ctx);
            i += 1;
        }
        out
    }

impl TimePeriodContext {
    /// Mark the descriptor dirty for every HsDir of this time period.
    pub fn mark_all_dirty(&mut self)
        ensures
            final(self).period == old(self).period,
            final(self).blind_id == old(self).blind_id,
            final(self).last_successful == old(self).last_successful,
            final(self).hs_dirs@.len() == old(self).hs_dirs@.len(),
            forall|i: int|
                0 <= i < final(self).hs_dirs@.len() ==> #[trigger] final(self).hs_dirs@[i] == (
                old(self).hs_dirs@[i].0, DescriptorStatus::Dirty),
    {
        let ghost s0 = self.hs_dirs@;
        let n = self.hs_dirs.len();
        let mut i: usize = 0;
        while i < n
            invariant
                i <= n,
                n == self.hs_dirs@.len(),
                self.period == old(self).period,
                self.blind_id == old(self).blind_id,
                self.last_successful == old(self).last_successful,
                s0 == old(self).hs_dirs@,
                forall|x: int| i <= x < n ==> #[trigger] self.hs_dirs@[x] == s0[x],
                forall|x: int|
                    0 <= x < i ==> #[trigger] self.hs_dirs@[x] == (s0[x].0, DescriptorStatus::Dirty),
            decreases n - i,
        {
            let id = self.hs_dirs[i].0;
            self.hs_dirs.set(i, (id, DescriptorStatus::Dirty));
            i += 1;
        }
    }

    /// The HsDirs that still need the current descriptor.
    pub fn dirty_hsdirs(&self) -> (r: Vec<RelayIds>)
        ensures
            r@ == self.hs_dirs@.filter(|e: HsDirEntry| e.1 is Dirty).map_values(
                |e: HsDirEntry| e.0,
            ),
    {
        let ghost keep = |e: HsDirEntry| e.1 is Dirty;
        let ghost s = self.hs_dirs@;
        let n = self.hs_dirs.len();
        let mut out: Vec<RelayIds> = Vec::new();
        let mut i: usize = 0;
        while i < n
            invariant
                i <= n,
                n == s.len(),
                s == self.hs_dirs@,
                keep == (|e: HsDirEntry| e.1 is Dirty),
                out@ == s.take(i as int).filter(keep).map_values(|e: HsDirEntry| e.0),
            decreases n - i,
        {
            proof {
                assert(s.take(i + 1).drop_last() =~= s.take(i as int));
                reveal_with_fuel(Seq::filter, 2);
                assert(s.take(i + 1) == s.take(i as int).push(s[i as int]));
            }
            let e = self.hs_dirs[i];
            match e.1 {
                DescriptorStatus::Dirty => {
                    out.push(e.0);
                },
                DescriptorStatus::Clean => {},
            }
            proof {
                assert(out@ =~= s.take(i + 1).filter(keep).map_values(|e: HsDirEntry| e.0));
            }
            i += 1;
        }
        proof {
            assert(s.take(n as int) =~= s);
        }
        out
    }
}

/// The outcome of one HsDir upload.
#[derive(Clone, Copy, Debug)]
pub struct HsDirUploadStatus {
    /// Which HsDir was uploaded to.
    pub relay_ids: RelayIds,
    /// Whether the upload succeeded.
    pub success: bool,
    /// The revision counter of the descriptor uploaded.
    pub revision_counter: u64,
}

/// The outcome of uploading to the HsDirs of one time period.
#[derive(Debug)]
pub struct TimePeriodUploadResult {
    /// The time period the uploads were for.
    pub time_period: TimePeriod,
    /// The per-HsDir outcomes.
    pub hsdir_result: Vec<HsDirUploadStatus>,
}

/// One outcome applied to a period context: if the HsDir is still listed
/// and the upload succeeded with a revision counter at least as fresh as
/// the last recorded success, the counter is recorded and the HsDir
/// marked clean.  An outcome for a delisted HsDir, or a failure, changes
/// nothing (a later cycle retries dirty HsDirs).
pub open spec fn apply_one_result(
    c: TimePeriodContextView,
    e: HsDirUploadStatus,
) -> TimePeriodContextView {
    match hsdir_index(c.hs_dirs, e.relay_ids) {
        None => c,
        Some(j) => {
            let fresh = match c.last_successful {
                None => true,
                Some(counter) => counter <= e.revision_counter,
            };
            if e.success && fresh {
                TimePeriodContextView {
                    last_successful: Some(e.revision_counter),
                    hs_dirs: c.hs_dirs.update(j, (c.hs_dirs[j].0, DescriptorStatus::Clean)),
                    ..c
                }
            } else {
                c
            }
        },
    }
}

/// All outcomes applied in order.
pub open spec fn apply_results(
    c: TimePeriodContextView,
    rs: Seq<HsDirUploadStatus>,
) -> TimePeriodContextView
    decreases rs.len(),
{
    if rs.len() == 0 {
        c
    } else {
        apply_one_result(apply_results(c, rs.drop_last()), rs.last())
    }
}

impl TimePeriodContext {
    /// Apply a batch of upload outcomes to this period context.
    pub fn handle_upload_results(&mut self, results: &TimePeriodUploadResult)
        requires
            results.time_period == old(self).period,
        ensures
            final(self)@ == apply_results(old(self)@, results.hsdir_result@),
    {
        let ghost res = results.hsdir_result@;
        let n = results.hsdir_result.len();
        let mut i: usize = 0;
        while i < n
            invariant
                i <= n,
                n == res.len(),
                res == results.hsdir_result@,
                self@ == apply_results(old(self)@, res.take(i as int)),
            decreases n - i,
        {
            proof {
                assert(res.take(i + 1).drop_last() =~= res.take(i as int));
                assert(res.take(i + 1).last() == res[i as int]);
            }
            let e = results.hsdir_result[i];
            let ghost c0 = self@;
            let ghost p = |x: HsDirEntry| hsdir_entry_matches(x, e.relay_ids);
            let m = self.hs_dirs.len();
            let mut j: usize = 0;
            let mut found: Option<usize> = None;
            while j < m
                invariant
                    j <= m,
                    m == self.hs_dirs@.len(),
                    c0 == self@,
                    p == (|x: HsDirEntry| hsdir_entry_matches(x, e.relay_ids)),
                    found is None ==> forall|x: int| 0 <= x < j ==> !p(#[trigger] self.hs_dirs@[x]),
                    found matches Some(f) ==> hsdir_index(c0.hs_dirs, e.relay_ids) == Some(
                        f as int,
                    ) && f < m,
                decreases m - j,
            {
                if found.is_none() && self.hs_dirs[j].0.same_as(&e.relay_ids) {
                    proof {
                        lemma_first_where_is(self.hs_dirs@, p, j as int);
                    }
                    found = Some(j);
                }
                j += 1;
            }
            match found {
                None => {
                    proof {
                        lemma_first_where_none(self.hs_dirs@, p);
                        assert(apply_one_result(c0, e) == c0);
                    }
                },
                Some(f) => {
                    let fresh = match self.last_successful {
                        None => true,
                        Some(counter) => counter <= e.revision_counter,
                    };
                    if e.success && fresh {
                        let id = self.hs_dirs[f].0;
                        self.hs_dirs.set(f, (id, DescriptorStatus::Clean));
                        self.last_successful = Some(e.revision_counter);
                        proof {
                            assert(self@ =~= apply_one_result(c0, e));
                        }
                    } else {
                        proof {
                            assert(apply_one_result(c0, e) == c0);
                        }
                    }
                },
            }
            i += 1;
        }
        proof {
            assert(res.take(n as int) =~= res);
        }
    }
}

/// A handle on the publisher's reactor state for one onion service.
///
/// It knows the active time periods (with each HsDir's status), when the
/// last upload cycle was initiated, and whether an upload is due.
#[derive(Debug)]
pub struct Publisher {
    /// The per-period state.
    pub time_periods: Vec<TimePeriodContext>,
    /// When the last upload cycle was initiated (monotonic milliseconds).
    pub last_uploaded: Option<u64>,
    /// Whether an upload is due.
    pub status: PublishStatus,
}

impl Publisher {
    /// A fresh publisher: it knows no time periods and no introduction
    /// points, so it will not upload anything yet.
    pub fn new() -> (r: Publisher)
        ensures
            r.time_periods@.len() == 0,
            r.last_uploaded is None,
            r.status == PublishStatus::AwaitingIpts,
    {
        Publisher { time_periods: Vec::new(), last_uploaded: None, status: PublishStatus::AwaitingIpts }
    }

    /// Return our current status.
    pub fn status(&self) -> (r: PublishStatus)
        ensures
            r == self.status,
    {
        self.status
    }

    /// Inform this publisher that its set of keys has changed: every
    /// descriptor is stale, so every HsDir becomes dirty, and an upload is
    /// scheduled unless we are still waiting for introduction points.
    pub fn new_hs_keys(&mut self)
        ensures
            final(self).last_uploaded == old(self).last_uploaded,
            final(self).status == (if old(self).status is AwaitingIpts {
                PublishStatus::AwaitingIpts
            } else {
                PublishStatus::UploadScheduled
            }),
            tpcs_view(final(self).time_periods).len() == tpcs_view(old(self).time_periods).len(),
            forall|k: int|
                0 <= k < tpcs_view(final(self).time_periods).len() ==> {
                    let newc = #[trigger] tpcs_view(final(self).time_periods)[k];
                    let oldc = tpcs_view(old(self).time_periods)[k];
                    &&& newc.period == oldc.period
                    &&& newc.blind_id == oldc.blind_id
                    &&& newc.last_successful == oldc.last_successful
                    &&& newc.hs_dirs.len() == oldc.hs_dirs.len()
                    &&& forall|x: int|
                        0 <= x < newc.hs_dirs.len() ==> #[trigger] newc.hs_dirs[x] == (
                        oldc.hs_dirs[x].0, DescriptorStatus::Dirty)
                },
    {
        let ghost olds = tpcs_view(self.time_periods);
        let n = self.time_periods.len();
        let mut out: Vec<TimePeriodContext> = Vec::new();
        let mut k: usize = 0;
        while k < n
            invariant
                k <= n,
                n == olds.len(),
                self.last_uploaded == old(self).last_uploaded,
                self.status == old(self).status,
                self.time_periods@.len() == n - k,
                forall|x: int| 0 <= x < n - k ==> #[trigger] self.time_periods@[x]@ == olds[k + x],
                out@.len() == k,
                forall|x: int|
                    0 <= x < k ==> {
                        let newc = #[trigger] out@[x]@;
                        let oldc = olds[x];
                        &&& newc.period == oldc.period
                        &&& newc.blind_id == oldc.blind_id
                        &&& newc.last_successful == oldc.last_successful
                        &&& newc.hs_dirs.len() == oldc.hs_dirs.len()
                        &&& forall|y: int|
                            0 <= y < newc.hs_dirs.len() ==> #[trigger] newc.hs_dirs[y] == (
                            oldc.hs_dirs[y].0, DescriptorStatus::Dirty)
                    },
            decreases n - k,
        {
            let mut ctx = self.time_periods.remove(0);
            assert(ctx@ == olds[k as int]);
            ctx.mark_all_dirty();
            out.push(ctx);
            k += 1;
        }
        self.time_periods = out;
        self.status = update_publish_status_unless_waiting(
            self.status,
            PublishStatus::UploadScheduled,
        );
    }
}

/// What the rate limit says about starting an upload now.
#[derive(Clone, Copy, PartialEq, Eq, Structural, Debug)]
pub enum RateLimit {
    /// Start the upload cycle.
    Proceed,
    /// Too soon after the last one: reattempt at the given instant.
    DeferUntil(u64),
}

/// Decide whether an upload cycle may start `now`, given when the last
/// one was initiated.
///
/// Within a minute of the last start nothing new starts; the deferred
/// wake-up lands exactly one minute after the last start, so exactly one
/// cycle follows a burst of triggers.
pub fn upload_rate_limit(last_uploaded: Option<u64>, now: u64) -> (r: RateLimit)
    ensures
        r == (match last_uploaded {
            None => RateLimit::Proceed,
            Some(last) => if now >= last && now - last >= UPLOAD_RATE_LIM_THRESHOLD_MS {
                RateLimit::Proceed
            } else {
                RateLimit::DeferUntil(crate::ipt_mgr::sat_add(last, UPLOAD_RATE_LIM_THRESHOLD_MS))
            },
        }),
{
    match last_uploaded {
        None => RateLimit::Proceed,
        Some(last) => {
            if now >= last && now - last >= UPLOAD_RATE_LIM_THRESHOLD_MS {
                RateLimit::Proceed
            } else {
                if last <= u64::MAX - UPLOAD_RATE_LIM_THRESHOLD_MS {
                    RateLimit::DeferUntil(last + UPLOAD_RATE_LIM_THRESHOLD_MS)
                } else {
                    RateLimit::DeferUntil(u64::MAX)
                }
            }
        },
    }
}

/// The next publish status on an IPT-watcher notification: with a set to
/// publish an upload is scheduled; with none we await introduction
/// points.
pub fn note_ipt_change(ipts_some: bool) -> (r: PublishStatus)
    ensures
        r == (if ipts_some {
            PublishStatus::UploadScheduled
        } else {
            PublishStatus::AwaitingIpts
        }),
{
    if ipts_some {
        PublishStatus::UploadScheduled
    } else {
        PublishStatus::AwaitingIpts
    }
}

/// The next publish status for an ordinary trigger (consensus change,
/// config change, retry timer): waiting for introduction points is not
/// interrupted.
pub fn update_publish_status_unless_waiting(current: PublishStatus, new_status: PublishStatus) -> (r:
    PublishStatus)
    ensures
        r == (if current is AwaitingIpts {
            PublishStatus::AwaitingIpts
        } else {
            new_status
        }),
{
    match current {
        PublishStatus::AwaitingIpts => PublishStatus::AwaitingIpts,
        _ => new_status,
    }
}

/// The backoff schedule: the base delay doubled once per attempt already
/// made, saturating at the largest representable delay.
pub open spec fn spec_upload_retry_delay(attempt: nat) -> u64
    decreases attempt,
{
    if attempt == 0 {
        UPLOAD_RETRY_BASE_MS
    } else {
        let p = spec_upload_retry_delay((attempt - 1) as nat);
        if p <= u64::MAX / 2 {
            (2 * p) as u64
        } else {
            u64::MAX
        }
    }
}

/// The retry delay before upload attempt `attempt` (counting from zero):
/// exponential backoff from a one-second base, saturating rather than
/// overflowing.  There is no cap on the number of retries.
pub fn upload_retry_delay(attempt: u32) -> (r: u64)
    ensures
        r == spec_upload_retry_delay(attempt as nat),
{
    let mut d: u64 = UPLOAD_RETRY_BASE_MS;
    let mut k: u32 = 0;
    while k < attempt
        invariant
            k <= attempt,
            d == spec_upload_retry_delay(k as nat),
        decreases attempt - k,
    {
        if d <= u64::MAX / 2 {
            d = 2 * d;
        } else {
            d = u64::MAX;
        }
        k += 1;
    }
    d
}

/// What the upload retry loop does next, after a failed attempt.
#[derive(Clone, Copy, PartialEq, Eq, Structural, Debug)]
pub enum RetryDecision {
    /// Sleep this long (milliseconds), then attempt again.
    Sleep(u64),
    /// Stop trying: the error is not retried, or the overall upload
    /// timeout is spent.
    GiveUp,
}

/// One step of the upload retry policy, after attempt number `attempt`
/// (counting from zero) failed with `err`, `waited` milliseconds of
/// backoff having been spent so far.
///
/// An internal error is never retried.  Otherwise the backoff delay for
/// this attempt — clamped to the per-attempt timeout — is slept and the
/// upload tried again, unless that would take the total waiting past the
/// overall upload timeout, which ends the attempts.
pub fn upload_retry_step(err: crate::errors::UploadError, attempt: u32, waited: u64) -> (r:
    RetryDecision)
    ensures
        r == ({
            let d = if spec_upload_retry_delay(attempt as nat) <= UPLOAD_ATTEMPT_TIMEOUT_MS {
                spec_upload_retry_delay(attempt as nat)
            } else {
                UPLOAD_ATTEMPT_TIMEOUT_MS
            };
            if err is Bug {
                RetryDecision::GiveUp
            } else if crate::ipt_mgr::sat_add(waited, d) > UPLOAD_TIMEOUT_MS {
                RetryDecision::GiveUp
            } else {
                RetryDecision::Sleep(d)
            }
        }),
{
    if !err.should_retry() {
        return RetryDecision::GiveUp;
    }
    let base = upload_retry_delay(attempt);
    let d = if base <= UPLOAD_ATTEMPT_TIMEOUT_MS {
        base
    } else {
        UPLOAD_ATTEMPT_TIMEOUT_MS
    };
    let total = if waited <= u64::MAX - d {
        waited + d
    } else {
        u64::MAX
    };
    if total > UPLOAD_TIMEOUT_MS {
        RetryDecision::GiveUp
    } else {
        RetryDecision::Sleep(d)
    }
}

/// Record a publication attempt in the shared set: every IPT about to be
/// named in the descriptor must be kept until the attempt's worst-case
/// end plus the proposed lifetime, plus slop.
pub fn note_publication_attempt(shared: &mut PublishIptSet, worst_case_end: u64)
    requires
        old(shared).expiries_wf(),
    ensures
        final(shared).expiries_wf(),
        final(shared).ipts == old(shared).ipts,
        ({
            match old(shared).ipts {
                None => final(shared).expiries() == old(shared).expiries(),
                Some(set) => {
                    let expiry = crate::ipt_mgr::sat_add(
                        crate::ipt_mgr::sat_add(worst_case_end, set@.lifetime),
                        IPT_PUBLISH_EXPIRY_SLOP_MS,
                    );
                    &&& forall|i: int|
                        0 <= i < set@.ipts.len() ==> crate::ipt_set::em_lookup(
                            final(shared).expiries(),
                            (#[trigger] set@.ipts[i]).lid,
                        ) == Some(expiry)
                    &&& forall|l: IptLocalId|
                        (forall|i: int|
                            0 <= i < set@.ipts.len() ==> (#[trigger] set@.ipts[i]).lid != l)
                            ==> crate::ipt_set::em_lookup(final(shared).expiries(), l)
                            == crate::ipt_set::em_lookup(old(shared).expiries(), l)
                },
            }
        }),
{
    let n = match &shared.ipts {
        None => {
            return ;
        },
        Some(set) => set.ipts.len(),
    };
    let ghost set0 = shared.ipts->Some_0@;
    let lifetime = match &shared.ipts {
        Some(set) => set.lifetime,
        None => 0,
    };
    let e1 = if worst_case_end <= u64::MAX - lifetime {
        worst_case_end + lifetime
    } else {
        u64::MAX
    };
    let expiry = if e1 <= u64::MAX - IPT_PUBLISH_EXPIRY_SLOP_MS {
        e1 + IPT_PUBLISH_EXPIRY_SLOP_MS
    } else {
        u64::MAX
    };
    let mut i: usize = 0;
    while i < n
        invariant
            i <= n,
            shared.expiries_wf(),
            shared.ipts == old(shared).ipts,
            shared.ipts is Some,
            shared.ipts->Some_0@ == set0,
            n == set0.ipts.len(),
            expiry == crate::ipt_mgr::sat_add(
                crate::ipt_mgr::sat_add(worst_case_end, set0.lifetime),
                IPT_PUBLISH_EXPIRY_SLOP_MS,
            ),
            forall|x: int|
                0 <= x < i ==> crate::ipt_set::em_lookup(
                    shared.expiries(),
                    (#[trigger] set0.ipts[x]).lid,
                ) == Some(expiry),
            forall|l: IptLocalId|
                (forall|x: int| 0 <= x < i ==> (#[trigger] set0.ipts[x]).lid != l)
                    ==> crate::ipt_set::em_lookup(shared.expiries(), l) == crate::ipt_set::em_lookup(
                    old(shared).expiries(),
                    l,
                ),
        decreases n - i,
    {
        let lid = match &shared.ipts {
            Some(set) => set.ipts[i].lid,
            None => {
                proof {
                    assert(false);
                }
                IptLocalId { w0: 0, w1: 0, w2: 0, w3: 0 }
            },
        };
        assert(lid == set0.ipts[i as int].lid);
        shared.set_expiry(lid, expiry);
        i += 1;
    }
}

} // verus!
