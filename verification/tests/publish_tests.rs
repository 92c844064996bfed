//! Tests for the publisher's per-period state: HsDir recomputation,
//! upload outcomes, the rate limit, the status machine, the retry
//! backoff, and the shared-set bookkeeping of publication attempts.

use tor_hsservice::ids::{IptLocalId, KeyPairValue, LinkSpecifier, RelayIds, U256};
use tor_hsservice::ipt_set::{IptInSet, IptSet, PublishIpt, PublishIptSet};
use tor_hsservice::errors::UploadError;
use tor_hsservice::keystore::PeriodKeyCache;
use tor_hsservice::publish::{
    compute_hsdirs, compute_time_periods, note_ipt_change, note_publication_attempt,
    update_publish_status_unless_waiting, upload_rate_limit, upload_retry_delay,
    upload_retry_step, DescriptorStatus, HsDirUploadStatus, Publisher, PublishStatus, RateLimit,
    RetryDecision, TimePeriodContext, TimePeriodInput, TimePeriodUploadResult,
    IPT_PUBLISH_EXPIRY_SLOP_MS,
};
use tor_hsservice::revision::TimePeriod;

fn w(n: u64) -> U256 {
    U256 { w0: n, w1: 0, w2: 0, w3: 0 }
}

fn relay(n: u64) -> RelayIds {
    RelayIds { ed: Some(w(n)), rsa: None }
}

fn lid(n: u64) -> IptLocalId {
    IptLocalId { w0: n, w1: 0, w2: 0, w3: 0 }
}

fn period(n: u64) -> TimePeriod {
    TimePeriod { interval_num: n, length_minutes: 1440, epoch_offset_secs: 0 }
}

#[test]
fn hsdirs_keep_status_and_mark_new_dirty() {
    let old = vec![(relay(1), DescriptorStatus::Clean), (relay(2), DescriptorStatus::Dirty)];
    let ring = vec![relay(2), relay(1), relay(3)];
    let r = compute_hsdirs(&ring, &old);
    assert_eq!(r.len(), 3);
    assert!(r[0].0.same_as(&relay(2)));
    assert_eq!(r[0].1, DescriptorStatus::Dirty);
    assert!(r[1].0.same_as(&relay(1)));
    assert_eq!(r[1].1, DescriptorStatus::Clean);
    assert!(r[2].0.same_as(&relay(3)));
    assert_eq!(r[2].1, DescriptorStatus::Dirty);
}

#[test]
fn hsdirs_recompute_from_unchanged_ring_is_stable() {
    let old = vec![
        (relay(1), DescriptorStatus::Clean),
        (relay(2), DescriptorStatus::Dirty),
        (relay(3), DescriptorStatus::Clean),
    ];
    let ring: Vec<RelayIds> = old.iter().map(|e| e.0).collect();
    let r = compute_hsdirs(&ring, &old);
    assert_eq!(r.len(), old.len());
    for (a, b) in r.iter().zip(old.iter()) {
        assert!(a.0.same_as(&b.0));
        assert_eq!(a.1, b.1);
    }
}

#[test]
fn time_periods_preserve_statuses_per_period() {
    let p1 = period(1);
    let p2 = period(2);
    let old = vec![TimePeriodContext {
        period: p1,
        blind_id: w(11),
        hs_dirs: vec![(relay(1), DescriptorStatus::Clean)],
        last_successful: Some(9),
    }];
    let inputs = vec![
        TimePeriodInput { period: p1, blind_id: w(11), ring: vec![relay(1), relay(2)] },
        TimePeriodInput { period: p2, blind_id: w(22), ring: vec![relay(3)] },
    ];
    let r = compute_time_periods(&inputs, &old);
    assert_eq!(r.len(), 2);
    assert_eq!(r[0].hs_dirs[0].1, DescriptorStatus::Clean);
    assert_eq!(r[0].hs_dirs[1].1, DescriptorStatus::Dirty);
    assert_eq!(r[0].last_successful, None);
    assert_eq!(r[1].hs_dirs[0].1, DescriptorStatus::Dirty);
}

#[test]
fn upload_results_mark_clean_and_track_counter() {
    let mut ctx = TimePeriodContext {
        period: period(1),
        blind_id: w(1),
        hs_dirs: vec![(relay(1), DescriptorStatus::Dirty), (relay(2), DescriptorStatus::Dirty)],
        last_successful: None,
    };
    ctx.handle_upload_results(&TimePeriodUploadResult {
        time_period: period(1),
        hsdir_result: vec![
            HsDirUploadStatus { relay_ids: relay(1), success: true, revision_counter: 5 },
            HsDirUploadStatus { relay_ids: relay(2), success: false, revision_counter: 5 },
        ],
    });
    assert_eq!(ctx.hs_dirs[0].1, DescriptorStatus::Clean);
    assert_eq!(ctx.hs_dirs[1].1, DescriptorStatus::Dirty);
    assert_eq!(ctx.last_successful, Some(5));

    // A stale counter no longer counts as a success to record.
    ctx.handle_upload_results(&TimePeriodUploadResult {
        time_period: period(1),
        hsdir_result: vec![HsDirUploadStatus {
            relay_ids: relay(2),
            success: true,
            revision_counter: 4,
        }],
    });
    assert_eq!(ctx.hs_dirs[1].1, DescriptorStatus::Dirty);
    assert_eq!(ctx.last_successful, Some(5));

    // An outcome for a delisted HsDir changes nothing.
    ctx.handle_upload_results(&TimePeriodUploadResult {
        time_period: period(1),
        hsdir_result: vec![HsDirUploadStatus {
            relay_ids: relay(9),
            success: true,
            revision_counter: 50,
        }],
    });
    assert_eq!(ctx.last_successful, Some(5));
}

#[test]
fn dirty_hsdirs_lists_only_dirty() {
    let mut ctx = TimePeriodContext {
        period: period(1),
        blind_id: w(1),
        hs_dirs: vec![(relay(1), DescriptorStatus::Clean), (relay(2), DescriptorStatus::Dirty)],
        last_successful: None,
    };
    let d = ctx.dirty_hsdirs();
    assert_eq!(d.len(), 1);
    assert!(d[0].same_as(&relay(2)));
    ctx.mark_all_dirty();
    assert_eq!(ctx.dirty_hsdirs().len(), 2);
}

#[test]
fn rate_limited_upload_defers_exactly_one_minute() {
    // The publisher uploaded at t=0; a consensus change at t=10s must not
    // start an upload before t=60s.
    assert_eq!(upload_rate_limit(Some(0), 10_000), RateLimit::DeferUntil(60_000));
    assert_eq!(upload_rate_limit(Some(0), 59_999), RateLimit::DeferUntil(60_000));
    assert_eq!(upload_rate_limit(Some(0), 60_000), RateLimit::Proceed);
    assert_eq!(upload_rate_limit(None, 5), RateLimit::Proceed);
}

#[test]
fn publish_status_machine() {
    assert_eq!(note_ipt_change(true), PublishStatus::UploadScheduled);
    assert_eq!(note_ipt_change(false), PublishStatus::AwaitingIpts);
    assert_eq!(
        update_publish_status_unless_waiting(
            PublishStatus::AwaitingIpts,
            PublishStatus::UploadScheduled
        ),
        PublishStatus::AwaitingIpts
    );
    assert_eq!(
        update_publish_status_unless_waiting(PublishStatus::Idle, PublishStatus::UploadScheduled),
        PublishStatus::UploadScheduled
    );
    let p = Publisher::new();
    assert_eq!(p.status(), PublishStatus::AwaitingIpts);
    assert_eq!(PublishStatus::default(), PublishStatus::AwaitingIpts);
}

#[test]
fn new_keys_dirty_everything() {
    let mut p = Publisher::new();
    p.time_periods.push(TimePeriodContext {
        period: period(1),
        blind_id: w(1),
        hs_dirs: vec![(relay(1), DescriptorStatus::Clean)],
        last_successful: Some(3),
    });
    p.status = PublishStatus::Idle;
    p.new_hs_keys();
    assert_eq!(p.time_periods[0].hs_dirs[0].1, DescriptorStatus::Dirty);
    assert_eq!(p.status(), PublishStatus::UploadScheduled);
}

#[test]
fn retry_backoff_doubles_from_one_second() {
    assert_eq!(upload_retry_delay(0), 1000);
    assert_eq!(upload_retry_delay(1), 2000);
    assert_eq!(upload_retry_delay(2), 4000);
    assert_eq!(upload_retry_delay(10), 1_024_000);
    assert_eq!(upload_retry_delay(63), u64::MAX);
}

#[test]
fn publication_attempt_records_expiry_with_slop() {
    let mut shared = PublishIptSet::new();
    shared.set_expiry(lid(9), 77);
    shared.ipts = Some(IptSet {
        ipts: vec![IptInSet {
            ipt: PublishIpt {
                link_specifiers: vec![LinkSpecifier { kind: 0, a: 1, b: 2 }],
                ipt_kp_ntor: w(5),
                kp_hs_ipt_sid: w(6),
                kp_hss_ntor: w(7),
            },
            lid: lid(1),
        }],
        lifetime: 60_000,
    });
    note_publication_attempt(&mut shared, 300_000);
    assert_eq!(shared.expiry_of(lid(1)), Some(300_000 + 60_000 + IPT_PUBLISH_EXPIRY_SLOP_MS));
    // An unrelated record is untouched.
    assert_eq!(shared.expiry_of(lid(9)), Some(77));
}

#[test]
fn expiry_map_expires_only_past_entries() {
    let mut shared = PublishIptSet::new();
    shared.set_expiry(lid(1), 100);
    shared.set_expiry(lid(2), 200);
    shared.set_expiry(lid(1), 150);
    assert_eq!(shared.expiry_of(lid(1)), Some(150));
    shared.expire_old_expiry_times(150);
    assert_eq!(shared.expiry_of(lid(1)), None);
    assert_eq!(shared.expiry_of(lid(2)), Some(200));
}

#[test]
fn retry_step_policy() {
    // An internal error is never retried.
    assert_eq!(upload_retry_step(UploadError::Bug, 0, 0), RetryDecision::GiveUp);
    // Early attempts sleep the doubling backoff.
    assert_eq!(upload_retry_step(UploadError::Circuit, 0, 0), RetryDecision::Sleep(1000));
    assert_eq!(upload_retry_step(UploadError::Stream, 1, 1000), RetryDecision::Sleep(2000));
    // The delay is clamped to the per-attempt timeout.
    assert_eq!(upload_retry_step(UploadError::Request, 10, 0), RetryDecision::Sleep(30_000));
    // Once the overall timeout would be spent, the attempts end.
    assert_eq!(upload_retry_step(UploadError::Request, 10, 290_000), RetryDecision::GiveUp);
}

#[test]
fn period_key_cache_keeps_first_derivation() {
    let kv = |n: u64| KeyPairValue {
        public: U256 { w0: n, w1: 0, w2: 0, w3: 0 },
        secret: U256 { w0: n + 9, w1: 0, w2: 0, w3: 0 },
    };
    let mut cache = PeriodKeyCache::new();
    assert!(cache.get(period(1)).is_none());
    let first = cache.get_or_insert(period(1), kv(1));
    assert_eq!(first.public.w0, 1);
    // A second derivation for the same period is discarded.
    let again = cache.get_or_insert(period(1), kv(2));
    assert_eq!(again.public.w0, 1);
    assert_eq!(cache.get(period(1)).unwrap().public.w0, 1);
    // Another period is unaffected.
    assert!(cache.get(period(2)).is_none());
    let other = cache.get_or_insert(period(2), kv(3));
    assert_eq!(other.public.w0, 3);
    assert_eq!(cache.get(period(1)).unwrap().public.w0, 1);
}
