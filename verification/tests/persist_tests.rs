//! Tests for the persisted inventory codec and the rebuild at startup.

use tor_hsservice::config::{HsNickname, OnionServiceConfig, OnionServiceConfigBuilder};
use tor_hsservice::errors::StartupError;
use tor_hsservice::ids::{IptLocalId, KeyPairValue, RelayIds, U256};
use tor_hsservice::keystore::{IptKeyRole, Keystore};
use tor_hsservice::persist::{decode_inventory, encode_inventory, IptRecord, RelayRecord};

fn w(n: u64) -> U256 {
    U256 { w0: n, w1: n + 1, w2: n + 2, w3: n + 3 }
}

fn lid(n: u64) -> IptLocalId {
    IptLocalId { w0: n, w1: 0, w2: 0, w3: 0 }
}

fn config(nick: &str) -> OnionServiceConfig {
    let nickname = HsNickname::new(nick.as_bytes().to_vec()).unwrap();
    OnionServiceConfigBuilder::default().nickname(nickname).build().unwrap()
}

fn sample_inventory() -> Vec<RelayRecord> {
    vec![
        RelayRecord {
            relay: RelayIds { ed: Some(w(1)), rsa: None },
            planned_retirement: 12345,
            ipts: vec![
                IptRecord { lid: lid(1), is_current: true },
                IptRecord { lid: lid(2), is_current: false },
            ],
        },
        RelayRecord {
            relay: RelayIds { ed: None, rsa: Some(w(9)) },
            planned_retirement: 777,
            ipts: vec![],
        },
    ]
}

fn records_equal(a: &Vec<RelayRecord>, b: &Vec<RelayRecord>) -> bool {
    a.len() == b.len()
        && a.iter().zip(b.iter()).all(|(ra, rb)| {
            ra.relay.same_as(&rb.relay)
                && ra.planned_retirement == rb.planned_retirement
                && ra.ipts == rb.ipts
        })
}

#[test]
fn inventory_round_trip_is_identity() {
    let inv = sample_inventory();
    let words = encode_inventory(&inv);
    let back = decode_inventory(&words).unwrap();
    assert!(records_equal(&inv, &back));
}

#[test]
fn empty_inventory_round_trips() {
    let inv: Vec<RelayRecord> = vec![];
    let words = encode_inventory(&inv);
    assert_eq!(words, vec![0u64]);
    let back = decode_inventory(&words).unwrap();
    assert!(back.is_empty());
}

#[test]
fn truncated_or_padded_streams_are_refused() {
    assert!(decode_inventory(&vec![]).is_none());
    // Claims one relay but holds nothing.
    assert!(decode_inventory(&vec![1u64]).is_none());
    // A valid encoding with a word glued on is refused.
    let mut words = encode_inventory(&sample_inventory());
    words.push(0);
    assert!(decode_inventory(&words).is_none());
    // A bad presence flag is refused.
    assert!(decode_inventory(&vec![1, 2]).is_none());
}

#[test]
fn rebuild_requires_identity_and_keys() {
    let inv = vec![RelayRecord {
        relay: RelayIds { ed: Some(w(1)), rsa: None },
        planned_retirement: 50,
        ipts: vec![IptRecord { lid: lid(4), is_current: true }],
    }];

    // Without the long-term identity key nothing starts.
    let ks = Keystore::new(false);
    match tor_hsservice::ipt_mgr::IptManager::from_records(config("a"), &ks, &inv, 0) {
        Err(StartupError::MissingIdentityKeys) => {}
        other => panic!("unexpected: {:?}", other),
    }

    // With the identity but without the IPT's keys, startup names the
    // lost identifier.
    let mut ks = Keystore::new(true);
    match tor_hsservice::ipt_mgr::IptManager::from_records(config("a"), &ks, &inv, 0) {
        Err(StartupError::MissingIptKey { lid: l }) => assert_eq!(l, lid(4)),
        other => panic!("unexpected: {:?}", other),
    }

    // With both keys present the inventory is reconstructed exactly.
    ks.insert(IptKeyRole::KSid, lid(4), KeyPairValue { public: w(20), secret: w(30) });
    ks.insert(IptKeyRole::KHssNtor, lid(4), KeyPairValue { public: w(40), secret: w(50) });
    let mgr = tor_hsservice::ipt_mgr::IptManager::from_records(config("a"), &ks, &inv, 0).unwrap();
    let inv2 = mgr.inventory();
    assert!(records_equal(&inv, &inv2));
}
