//! Tests for the configuration: the builder's defaults and validation,
//! nicknames, reconfiguration rules, and the DoS parameters.

use tor_hsservice::config::{
    dos_params_from_token_bucket_config, Anonymity, ConfigBuildError, DosParams, HsNickname,
    OnionServiceConfigBuilder, Reconfigure, ReconfigureError, TokenBucketConfig,
};
use tor_hsservice::errors::{ChooseIptError, ErrorKind, UploadError};

fn nick(s: &str) -> HsNickname {
    HsNickname::new(s.as_bytes().to_vec()).unwrap()
}

#[test]
fn builder_defaults() {
    let b = OnionServiceConfigBuilder::default();
    assert!(b.peek_nickname().is_none());
    let b = b.nickname(nick("allium-cepa"));
    assert_eq!(b.peek_nickname().unwrap().as_bytes(), &b"allium-cepa".to_vec());
    let c = b.build().unwrap();
    assert_eq!(c.num_intro_points, 3);
    assert_eq!(c.anonymity, Anonymity::Anonymous);
    assert_eq!(c.max_concurrent_streams_per_circuit, 65535);
    assert!(c.rate_limit_at_intro.is_none());
    assert_eq!(c.nickname().as_bytes(), &b"allium-cepa".to_vec());
    let (lo, hi) = c.ipt_relay_rotation_time();
    assert_eq!(lo, 4 * 86_400_000);
    assert_eq!(hi, 7 * 86_400_000);
}

#[test]
fn builder_validation() {
    match OnionServiceConfigBuilder::default().build() {
        Err(ConfigBuildError::MissingField { field }) => assert_eq!(field, "nickname"),
        other => panic!("unexpected: {:?}", other),
    }
    match OnionServiceConfigBuilder::default().nickname(nick("n")).num_intro_points(0).build() {
        Err(ConfigBuildError::Invalid { field, .. }) => assert_eq!(field, "num_intro_points"),
        other => panic!("unexpected: {:?}", other),
    }
    match OnionServiceConfigBuilder::default().nickname(nick("n")).num_intro_points(21).build() {
        Err(ConfigBuildError::Invalid { field, .. }) => assert_eq!(field, "num_intro_points"),
        other => panic!("unexpected: {:?}", other),
    }
    assert!(OnionServiceConfigBuilder::default()
        .nickname(nick("n"))
        .num_intro_points(20)
        .build()
        .is_ok());
    match OnionServiceConfigBuilder::default()
        .nickname(nick("n"))
        .rate_limit_at_intro(Some(TokenBucketConfig::new(u32::MAX, 1)))
        .build()
    {
        Err(ConfigBuildError::Invalid { field, .. }) => assert_eq!(field, "rate_limit_at_intro"),
        other => panic!("unexpected: {:?}", other),
    }
}

#[test]
fn nickname_rules() {
    assert!(HsNickname::new(b"".to_vec()).is_err());
    assert!(HsNickname::new(b"has space".to_vec()).is_err());
    assert!(HsNickname::new(vec![b'x'; 256]).is_err());
    assert!(HsNickname::new(vec![b'x'; 255]).is_ok());
    let a = nick("same-name");
    let b = nick("same-name");
    let c = nick("other_name");
    assert!(a.same_as(&b));
    assert!(!a.same_as(&c));
    assert!(a.duplicate().same_as(&a));
}

#[test]
fn token_bucket_and_dos_params() {
    let t = TokenBucketConfig::new(100, 30);
    assert_eq!(t.rate, 100);
    assert_eq!(t.burst, 30);
    assert_eq!(
        dos_params_from_token_bucket_config(&t).unwrap(),
        DosParams { rate: 100, burst: 30 }
    );
    assert!(dos_params_from_token_bucket_config(&TokenBucketConfig::new(1, u32::MAX)).is_err());

    let c = OnionServiceConfigBuilder::default()
        .nickname(nick("n"))
        .rate_limit_at_intro(Some(t))
        .build()
        .unwrap();
    assert_eq!(c.dos_extension().unwrap(), Some(DosParams { rate: 100, burst: 30 }));
    let c2 = OnionServiceConfigBuilder::default().nickname(nick("n")).build().unwrap();
    assert_eq!(c2.dos_extension().unwrap(), None);
}

#[test]
fn reconfiguration_rules() {
    let old = OnionServiceConfigBuilder::default().nickname(nick("stay")).build().unwrap();
    let renamed = OnionServiceConfigBuilder::default().nickname(nick("go")).build().unwrap();
    match old.for_transition_to(renamed, Reconfigure::AllOrNothing) {
        Err(ReconfigureError::CannotChange { field }) => assert_eq!(field, "nickname"),
        other => panic!("unexpected: {:?}", other),
    }

    let renamed = OnionServiceConfigBuilder::default().nickname(nick("go")).build().unwrap();
    let kept = old.for_transition_to(renamed, Reconfigure::WarnOnFailures).unwrap();
    assert!(kept.nickname().same_as(&nick("stay")));

    let deanon = OnionServiceConfigBuilder::default()
        .nickname(nick("stay"))
        .anonymity(Anonymity::SingleOnion)
        .build()
        .unwrap();
    match old.for_transition_to(deanon, Reconfigure::CheckAllOrNothing) {
        Err(ReconfigureError::CannotChange { field }) => assert_eq!(field, "anonymity"),
        other => panic!("unexpected: {:?}", other),
    }

    let retuned = OnionServiceConfigBuilder::default()
        .nickname(nick("stay"))
        .num_intro_points(5)
        .build()
        .unwrap();
    let new = old.for_transition_to(retuned, Reconfigure::AllOrNothing).unwrap();
    assert_eq!(new.num_intro_points, 5);
}

#[test]
fn error_classification() {
    assert_eq!(ChooseIptError::NetDir.kind(), ErrorKind::TorDirectoryUnusable);
    assert_eq!(ChooseIptError::TooFewUsableRelays.kind(), ErrorKind::TorDirectoryUnusable);
    assert_eq!(ChooseIptError::TimeOverflow.kind(), ErrorKind::ClockSkew);
    assert_eq!(ChooseIptError::Bug.kind(), ErrorKind::Internal);
    assert!(UploadError::Request.should_retry());
    assert!(UploadError::Circuit.should_retry());
    assert!(UploadError::Stream.should_retry());
    assert!(!UploadError::Bug.should_retry());
}
