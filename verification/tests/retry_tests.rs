//! Tests for the manager's transient-failure handling and wake-up times.

use tor_hsservice::config::{HsNickname, OnionServiceConfig, OnionServiceConfigBuilder};
use tor_hsservice::errors::CreateIptError;
use tor_hsservice::ids::{IptLocalId, KeyPairValue, RelayIds, U256};
use tor_hsservice::ipt_mgr::{IptManager, Progress, STORAGE_RETRY_MS};
use tor_hsservice::keystore::Keystore;

fn w(n: u64) -> U256 {
    U256 { w0: n, w1: 0, w2: 0, w3: 0 }
}

fn lid(n: u64) -> IptLocalId {
    IptLocalId { w0: n, w1: 0, w2: 0, w3: 0 }
}

fn kp(n: u64) -> KeyPairValue {
    KeyPairValue { public: w(n), secret: w(n + 1000) }
}

fn config(nick: &str) -> OnionServiceConfig {
    let nickname = HsNickname::new(nick.as_bytes().to_vec()).unwrap();
    OnionServiceConfigBuilder::default().nickname(nickname).num_intro_points(1).build().unwrap()
}

#[test]
fn replay_log_failure_suspends_creation_for_the_cycle() {
    let mut ks = Keystore::new(true);
    let mut mgr = IptManager::new(config("fragile"));

    // The manager wants a relay, then an IPT at it.
    let (action, _) = mgr.progress_pump(0).unwrap();
    assert_eq!(action, Progress::NeedRelay);
    assert!(mgr.add_relay(RelayIds { ed: Some(w(1)), rsa: None }, u64::MAX));
    let (action, _) = mgr.progress_pump(0).unwrap();
    assert_eq!(action, Progress::NeedIpt { relay_index: 0 });

    // The replay log cannot be opened: a transient error; the keys were
    // filed first and stay filed.
    let e = mgr
        .create_ipt_at_relay(&mut ks, 0, lid(1), kp(1), kp(2), 0, false, false, true)
        .unwrap_err();
    assert_eq!(e, CreateIptError::OpenReplayLog);
    assert!(ks.get(tor_hsservice::keystore::IptKeyRole::KSid, lid(1)).is_some());

    // For the rest of this cycle creation is not retried; the manager
    // moves on to considering a new relay, and once that is settled it is
    // idle until the retry time, at most a minute away.
    let (action, _) = mgr.progress_pump(0).unwrap();
    assert_eq!(action, Progress::NeedRelay);
    mgr.note_relay_selection_failed();
    let (action, _) = mgr.progress_pump(0).unwrap();
    assert_eq!(action, Progress::Idle { wake: Some(STORAGE_RETRY_MS) });

    // The next cycle retries; the identifier is fresh, so fresh keys are
    // expected again.
    mgr.begin_cycle();
    mgr.note_directory_event();
    let (action, _) = mgr.progress_pump(1000).unwrap();
    assert_eq!(action, Progress::NeedIpt { relay_index: 0 });
    mgr.create_ipt_at_relay(&mut ks, 0, lid(2), kp(3), kp(4), 1000, false, true, true).unwrap();
    let (action, _) = mgr.progress_pump(1000).unwrap();
    assert!(matches!(action, Progress::Idle { .. }));
}

#[test]
fn failed_selection_waits_for_a_directory_event() {
    let mut mgr = IptManager::new(config("dirless"));
    let (action, _) = mgr.progress_pump(0).unwrap();
    assert_eq!(action, Progress::NeedRelay);

    // The directory had nothing for us: no relay is asked for again until
    // a directory event (or a config change) arrives.
    mgr.note_relay_selection_failed();
    let (action, _) = mgr.progress_pump(0).unwrap();
    assert_eq!(action, Progress::Idle { wake: None });
    mgr.note_directory_event();
    let (action, _) = mgr.progress_pump(0).unwrap();
    assert_eq!(action, Progress::NeedRelay);
}

#[test]
fn idle_wake_covers_planned_retirement() {
    let mut ks = Keystore::new(true);
    let mut mgr = IptManager::new(config("sleepy"));
    let (action, _) = mgr.progress_pump(0).unwrap();
    assert_eq!(action, Progress::NeedRelay);
    assert!(mgr.add_relay(RelayIds { ed: Some(w(1)), rsa: None }, 5000));
    let (action, _) = mgr.progress_pump(0).unwrap();
    assert_eq!(action, Progress::NeedIpt { relay_index: 0 });
    mgr.create_ipt_at_relay(&mut ks, 0, lid(1), kp(1), kp(2), 0, false, true, true).unwrap();

    // Idle until the relay's planned retirement.
    let (action, _) = mgr.progress_pump(10).unwrap();
    assert_eq!(action, Progress::Idle { wake: Some(5000) });
}
