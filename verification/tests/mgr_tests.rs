//! Tests for the IPT manager's state machine: cold start, the delayed
//! partial publish, the full publish, restart from the persisted
//! inventory, retirement-forced rotation, and retention of published
//! IPTs.

use tor_hsservice::config::{HsNickname, OnionServiceConfig, OnionServiceConfigBuilder};
use tor_hsservice::ids::{IptLocalId, KeyPairValue, RelayIds, U256};
use tor_hsservice::ipt::{GoodIptDetails, IptStatus, IptStatusStatus};
use tor_hsservice::ipt_mgr::{IptManager, Progress};
use tor_hsservice::ipt_set::PublishIptSet;
use tor_hsservice::keystore::{IptKeyRole, Keystore};
use tor_hsservice::persist::{decode_inventory, encode_inventory, RelayRecord};

fn w(n: u64, tag: u64) -> U256 {
    U256 { w0: n, w1: tag, w2: 0, w3: 0 }
}

fn lid(n: u64) -> IptLocalId {
    IptLocalId { w0: n, w1: 0, w2: 0, w3: 0 }
}

fn kp(n: u64, tag: u64) -> KeyPairValue {
    KeyPairValue { public: w(n, tag), secret: w(n, tag + 100) }
}

fn relay(n: u64) -> RelayIds {
    RelayIds { ed: Some(w(n, 7)), rsa: None }
}

fn config(nick: &str) -> OnionServiceConfig {
    let nickname = HsNickname::new(nick.as_bytes().to_vec()).unwrap();
    OnionServiceConfigBuilder::default().nickname(nickname).build().unwrap()
}

fn good() -> GoodIptDetails {
    GoodIptDetails { link_specifiers: vec![], ipt_kp_ntor: w(0x55, 0x55) }
}

/// Drive the manager until it has nothing left to do, performing the
/// outside work it asks for; returns the identifiers of the IPTs created
/// and of those dropped.
struct Driver {
    next_relay: u64,
    next_lid: u64,
    created: Vec<IptLocalId>,
    dropped: Vec<IptLocalId>,
    retirement: u64,
}

impl Driver {
    fn new(retirement: u64) -> Driver {
        Driver { next_relay: 0, next_lid: 0, created: vec![], dropped: vec![], retirement }
    }

    fn run(&mut self, mgr: &mut IptManager, ks: &mut Keystore, now: u64) -> Option<u64> {
        loop {
            let (action, mut removed) = mgr.progress_pump(now).unwrap();
            self.dropped.append(&mut removed);
            match action {
                Progress::NeedRelay => {
                    let r = relay(self.next_relay);
                    self.next_relay += 1;
                    assert!(mgr.add_relay(r, self.retirement));
                }
                Progress::NeedIpt { relay_index } => {
                    let l = lid(self.next_lid);
                    let sid = kp(self.next_lid, 1);
                    let ntor = kp(self.next_lid, 2);
                    self.next_lid += 1;
                    mgr.create_ipt_at_relay(ks, relay_index, l, sid, ntor, now, false, true, true)
                        .unwrap();
                    self.created.push(l);
                }
                Progress::Idle { wake } => return wake,
                Progress::Changed => unreachable!(),
            }
        }
    }
}

fn inventories_equal(a: &Vec<RelayRecord>, b: &Vec<RelayRecord>) -> bool {
    if a.len() != b.len() {
        return false;
    }
    for (ra, rb) in a.iter().zip(b.iter()) {
        if !ra.relay.same_as(&rb.relay) || ra.planned_retirement != rb.planned_retirement {
            return false;
        }
        if ra.ipts.len() != rb.ipts.len() {
            return false;
        }
        for (ia, ib) in ra.ipts.iter().zip(rb.ipts.iter()) {
            if ia.lid != ib.lid || ia.is_current != ib.is_current {
                return false;
            }
        }
    }
    true
}

#[test]
fn test_mgr_lifecycle() {
    let mut ks = Keystore::new(true);
    let mut mgr = IptManager::new(config("nick"));
    let mut drv = Driver::new(u64::MAX);

    // Cold start: the manager asks for exactly 3 establishers.
    drv.run(&mut mgr, &mut ks, 0);
    const EXPECT_N_IPTS: usize = 3;
    assert_eq!(drv.created.len(), EXPECT_N_IPTS);

    // Nothing is published while everything is still establishing.
    let (to_publish, accept, _) = mgr.compute_publish_set(0);
    assert!(to_publish.is_none());
    assert!(accept.is_empty());

    // Advancing time a bit changes nothing.
    let (to_publish, _, _) = mgr.compute_publish_set(500);
    assert!(to_publish.is_none());

    // One IPT becomes good, 500 ms after it started establishing.
    mgr.handle_ipt_status_update(
        drv.created[0],
        IptStatus { status: IptStatusStatus::Good(good()), wants_to_retire: false, n_faults: 0 },
        500,
    );

    // Publication waits a further fastest-establish-time: nothing until
    // 500 + 500 = 1000 ms.
    let (to_publish, _, wake) = mgr.compute_publish_set(999);
    assert!(to_publish.is_none());
    assert_eq!(wake, Some(1000));
    let (to_publish, accept, _) = mgr.compute_publish_set(1000);
    let set = to_publish.unwrap();
    assert_eq!(set.ipts.len(), 1);
    assert_eq!(set.lifetime, 30 * 60 * 1000);
    assert_eq!(accept.len(), 1);
    assert_eq!(accept[0], drv.created[0]);

    // The other IPTs become good too: a full, confident publication.
    for l in &drv.created[1..] {
        mgr.handle_ipt_status_update(
            *l,
            IptStatus {
                status: IptStatusStatus::Good(good()),
                wants_to_retire: false,
                n_faults: 0,
            },
            1000,
        );
    }
    let (to_publish, accept, _) = mgr.compute_publish_set(1000);
    let set = to_publish.unwrap();
    assert_eq!(set.ipts.len(), EXPECT_N_IPTS);
    assert_eq!(set.lifetime, 12 * 3600 * 1000);
    assert_eq!(accept.len(), EXPECT_N_IPTS);

    // Persist, shut down, restart: the inventory is reconstructed
    // exactly, and the keys come back out of the keystore.
    let inventory = mgr.inventory();
    let words = encode_inventory(&inventory);
    let reloaded = decode_inventory(&words).unwrap();
    assert!(inventories_equal(&inventory, &reloaded));

    let mgr2 = IptManager::from_records(config("nick"), &ks, &reloaded, 2000).unwrap();
    let inventory2 = mgr2.inventory();
    assert!(inventories_equal(&inventory, &inventory2));
    for l in &drv.created {
        let sid = ks.get(IptKeyRole::KSid, *l).unwrap();
        let ntor = ks.get(IptKeyRole::KHssNtor, *l).unwrap();
        // The keys a restarted manager hands its establishers are the
        // ones generated before the restart.
        let creation_index = drv.created.iter().position(|x| x == l).unwrap() as u64;
        assert_eq!(sid.public.w0, creation_index);
        assert_eq!(ntor.public.w0, creation_index);
    }
}

#[test]
fn rotation_after_retirement() {
    let mut ks = Keystore::new(true);
    let mut mgr = IptManager::new(config("rotator"));
    let one_hour: u64 = 3_600_000;
    let mut drv = Driver::new(one_hour);

    drv.run(&mut mgr, &mut ks, 0);
    assert_eq!(drv.created.len(), 3);
    for l in drv.created.clone() {
        mgr.handle_ipt_status_update(
            l,
            IptStatus {
                status: IptStatusStatus::Good(good()),
                wants_to_retire: false,
                n_faults: 0,
            },
            100,
        );
    }
    let old_lids = drv.created.clone();

    // Past the planned retirement, rotation clears aged IPTs one at a
    // time — only while the pool stays full — so replacement proceeds in
    // bounded rounds: rotate, replace, wait for the replacement to become
    // good, rotate again.
    let now = one_hour + 1;
    drv.retirement = u64::MAX;
    let mut marked = drv.created.len();
    let mut rounds = 0;
    loop {
        drv.run(&mut mgr, &mut ks, now);
        let newly: Vec<_> = drv.created[marked..].to_vec();
        for l in &newly {
            mgr.handle_ipt_status_update(
                *l,
                IptStatus {
                    status: IptStatusStatus::Good(good()),
                    wants_to_retire: false,
                    n_faults: 0,
                },
                now,
            );
        }
        marked = drv.created.len();
        let inv = mgr.inventory();
        let settled = inv.len() == 3
            && inv.iter().all(|r| {
                r.planned_retirement == u64::MAX && r.ipts.len() == 1 && r.ipts[0].is_current
            });
        if newly.is_empty() && settled {
            break;
        }
        rounds += 1;
        assert!(rounds < 30, "rotation did not settle");
    }

    // Three fresh IPTs at three fresh relays; the aged, never-published
    // ones were dropped.
    assert_eq!(drv.created.len(), 6);
    for l in &old_lids {
        assert!(drv.dropped.contains(l));
    }
}

#[test]
fn published_ipt_retained_until_expiry() {
    let mut ks = Keystore::new(true);
    let mut mgr = IptManager::new(config("keeper"));
    let two_hours: u64 = 7_200_000;
    let mut drv = Driver::new(u64::MAX);
    drv.run(&mut mgr, &mut ks, 0);
    for l in drv.created.clone() {
        mgr.handle_ipt_status_update(
            l,
            IptStatus {
                status: IptStatusStatus::Good(good()),
                wants_to_retire: false,
                n_faults: 0,
            },
            100,
        );
    }
    let published = drv.created[0];

    // The publisher has published the first IPT; its descriptors stay
    // valid for two hours.
    let mut shared = PublishIptSet::new();
    shared.set_expiry(published, two_hours);
    mgr.import_new_expiry_times(&shared);

    // Its establisher asks to retire it: the current mark is cleared, but
    // the record is retained while a published descriptor names it.
    mgr.handle_ipt_status_update(
        published,
        IptStatus { status: IptStatusStatus::Good(good()), wants_to_retire: true, n_faults: 0 },
        200,
    );
    drv.run(&mut mgr, &mut ks, 1000);
    assert!(!drv.dropped.contains(&published));
    let inv = mgr.inventory();
    let holder = inv.iter().find(|r| r.ipts.iter().any(|i| i.lid == published)).unwrap();
    assert!(!holder.ipts.iter().find(|i| i.lid == published).unwrap().is_current);

    // Once the descriptor expires, it is dropped.
    drv.run(&mut mgr, &mut ks, two_hours + 1);
    assert!(drv.dropped.contains(&published));
}

#[test]
fn relay_count_capped_at_twice_target() {
    let mut ks = Keystore::new(true);
    let mut mgr = IptManager::new(config("capped"));
    let mut drv = Driver::new(u64::MAX);
    drv.run(&mut mgr, &mut ks, 0);
    // All three IPTs turn faulty: the manager wants replacements, but
    // never more than twice the target of relays.
    let mut faulted = 0u64;
    loop {
        for l in drv.created.clone().iter().skip(faulted as usize) {
            mgr.handle_ipt_status_update(
                *l,
                IptStatus { status: IptStatusStatus::Faulty, wants_to_retire: false, n_faults: 1 },
                10,
            );
            faulted += 1;
        }
        let before = mgr.inventory().len();
        drv.run(&mut mgr, &mut ks, 10);
        if mgr.inventory().len() == before {
            break;
        }
    }
    assert_eq!(mgr.inventory().len(), 6);
    assert!(!mgr.add_relay(relay(999), u64::MAX));
}

#[test]
fn duplicate_relay_identity_refused() {
    let mut mgr = IptManager::new(config("dupes"));
    assert!(mgr.add_relay(relay(1), 1000));
    assert!(!mgr.add_relay(relay(1), 2000));
    assert!(mgr.add_relay(relay(2), 1000));
}

#[test]
fn status_update_transitions() {
    let mut ks = Keystore::new(true);
    let mut mgr = IptManager::new(config("st"));
    let mut drv = Driver::new(u64::MAX);
    drv.run(&mut mgr, &mut ks, 0);
    let l = drv.created[0];

    // Establishing -> Good with a backwards monotonic clock: the
    // establish time is unknown, but the IPT is still good.
    mgr.handle_ipt_status_update(
        l,
        IptStatus { status: IptStatusStatus::Good(good()), wants_to_retire: false, n_faults: 0 },
        0,
    );
    let (p, _, _) = mgr.compute_publish_set(0);
    assert!(p.is_some());

    // A wish to retire clears the current mark: the IPT is no longer
    // offered.
    mgr.handle_ipt_status_update(
        l,
        IptStatus { status: IptStatusStatus::Good(good()), wants_to_retire: true, n_faults: 0 },
        10,
    );
    let (p, _, _) = mgr.compute_publish_set(10);
    assert!(p.is_none());

    // An update for a forgotten IPT is ignored.
    mgr.handle_ipt_status_update(
        lid(9999),
        IptStatus { status: IptStatusStatus::Faulty, wants_to_retire: false, n_faults: 3 },
        10,
    );
}

#[test]
fn keystore_get_or_generate_policies() {
    let mut ks = Keystore::new(true);
    let l = lid(1);
    let fresh = kp(1, 1);
    // Fresh identifier, no keys expected: generated and filed.
    let got = ks.get_or_generate(IptKeyRole::KSid, l, fresh, false).unwrap();
    assert_eq!(got.public.w0, fresh.public.w0);
    // Now expected to exist: loaded.
    let again = ks.get_or_generate(IptKeyRole::KSid, l, kp(2, 1), true).unwrap();
    assert_eq!(again.public.w0, fresh.public.w0);
    // Fresh identifier but keys already present: fatal.
    assert!(ks.get_or_generate(IptKeyRole::KSid, l, kp(3, 1), false).is_err());
    // Expected to exist but missing: recovered by filing the fresh pair.
    let recovered = ks.get_or_generate(IptKeyRole::KHssNtor, l, kp(4, 2), true).unwrap();
    assert_eq!(recovered.public.w0, 4);
}
