use clipsync::auth::{
    constant_time_eq, AuthorizationError, GroupAuthorizer, GroupId, Principal, RelayEnvelope,
    ReplayProtector, ServerId, SessionAuthenticator, SessionId, UserId,
};
use clipsync::protocol::{DeviceId, Message};

fn principal(device: &str) -> Principal {
    Principal { user_id: UserId::new(), device_id: DeviceId::from(device) }
}

#[test]
fn session_token_authenticates_and_wrong_token_fails() {
    let mut auth = SessionAuthenticator::new(60);
    let credential = auth.issue(principal("device-a"));
    assert!(auth.authenticate(&credential.session_id, &credential.token).is_some());
    assert!(auth.authenticate(&credential.session_id, "wrong").is_none());
}

#[test]
fn issued_token_is_the_secret_in_hexadecimal() {
    let mut auth = SessionAuthenticator::new(60);
    let id = SessionId::from_string("s").unwrap();
    let credential = auth.issue_at(principal("device-a"), id.clone(), &[0x00, 0xab, 0x7f], 100);
    assert_eq!(credential.token, "00ab7f");
    assert_eq!(credential.expires_at, 160);
    assert_eq!(
        auth.authenticate_at(&id, "00ab7f", 160).unwrap().device_id,
        DeviceId::from("device-a")
    );
    assert!(auth.authenticate_at(&id, "00ab7f", 161).is_none());
    assert!(auth.authenticate_at(&id, "00AB7F", 160).is_none());
}

#[test]
fn expiry_saturates() {
    let mut auth = SessionAuthenticator::new(10);
    let id = SessionId::from_string("s").unwrap();
    let credential = auth.issue_at(principal("d"), id.clone(), &[1], u64::MAX - 3);
    assert_eq!(credential.expires_at, u64::MAX);
    assert!(auth.authenticate_at(&id, "01", u64::MAX).is_some());
}

#[test]
fn fresh_credentials_differ() {
    let mut auth = SessionAuthenticator::new(60);
    let a = auth.issue(principal("d"));
    let b = auth.issue(principal("d"));
    assert_ne!(a.token, b.token);
    assert_ne!(a.session_id, b.session_id);
    assert_eq!(a.token.len(), 64);
    assert_eq!(a.session_id.as_str().len(), 36);
    assert!(a.token.chars().all(|c| c.is_ascii_hexdigit() && !c.is_ascii_uppercase()));
}

#[test]
fn revoked_session_no_longer_opens() {
    let mut auth = SessionAuthenticator::new(60);
    let credential = auth.issue(principal("device-a"));
    assert!(auth.revoke(&credential.session_id));
    assert!(!auth.revoke(&credential.session_id));
    assert!(auth.authenticate(&credential.session_id, &credential.token).is_none());
}

#[test]
fn blank_identifiers_are_refused() {
    assert!(UserId::from_string("").is_none());
    assert!(GroupId::from_string(" \t\u{3000}").is_none());
    assert_eq!(ServerId::from_string(" x ").unwrap().as_str(), " x ");
    assert_eq!(SessionId::from_string("abc").unwrap().to_string(), "abc");
}

#[test]
fn texts_are_compared_in_full() {
    assert!(constant_time_eq("", ""));
    assert!(constant_time_eq("olá", "olá"));
    assert!(!constant_time_eq("abc", "abd"));
    assert!(!constant_time_eq("abc", "abcd"));
    assert!(!constant_time_eq("abcd", "abc"));
}

#[test]
fn group_authorization_rejects_forged_destination() {
    let group = GroupId::new();
    let mut policy = GroupAuthorizer::default();
    policy.add_member(group.clone(), DeviceId::from("source"));
    assert_eq!(
        policy.authorize(&DeviceId::from("source"), Some(&DeviceId::from("other")), &group),
        Err(AuthorizationError::DestinationNotMember)
    );
}

#[test]
fn group_authorization_names_each_refusal() {
    let group = GroupId::from_string("g").unwrap();
    let mut policy = GroupAuthorizer::default();
    let a = DeviceId::from("a");
    let b = DeviceId::from("b");
    assert_eq!(policy.authorize(&a, None, &group), Err(AuthorizationError::UnknownGroup));
    policy.add_member(group.clone(), a.clone());
    assert_eq!(policy.authorize(&b, None, &group), Err(AuthorizationError::SourceNotMember));
    assert_eq!(policy.authorize(&a, None, &group), Ok(()));
    policy.add_member(group.clone(), b.clone());
    assert_eq!(policy.authorize(&a, Some(&b), &group), Ok(()));
    assert!(policy.remove_member(&group, &b));
    assert!(!policy.remove_member(&group, &b));
    assert!(!policy.remove_member(&GroupId::from_string("h").unwrap(), &a));
    assert_eq!(
        policy.authorize(&a, Some(&b), &group),
        Err(AuthorizationError::DestinationNotMember)
    );
}

#[test]
fn replay_and_forged_source_are_rejected() {
    let session = SessionId::new();
    let group = GroupId::new();
    let source = DeviceId::from("source");
    let mut policy = GroupAuthorizer::default();
    policy.add_member(group.clone(), source.clone());
    let payload = Message::ClipboardText {
        mime: "text/plain".into(),
        content: "secret".into(),
        origin: DeviceId::from("forged"),
        sha256: "hash".into(),
    };
    let mut envelope = RelayEnvelope {
        session_id: session.clone(),
        source: source.clone(),
        destination: None,
        group,
        sequence: 1,
        payload,
    };
    let mut replay = ReplayProtector::default();
    assert_eq!(envelope.authorize(&source, &policy, &mut replay), Ok(()));
    assert!(matches!(
        envelope.authorize(&source, &policy, &mut replay),
        Err(AuthorizationError::Replay)
    ));
    assert!(matches!(
        envelope.authorize(&DeviceId::from("attacker"), &policy, &mut replay),
        Err(AuthorizationError::SourceMismatch)
    ));
    match &envelope.payload {
        Message::ClipboardText { origin, .. } => assert_eq!(origin, &source),
        other => panic!("unexpected {}", other.kind_name()),
    }
}

#[test]
fn sequences_must_rise_within_a_session() {
    let mut replay = ReplayProtector::default();
    let a = SessionId::from_string("a").unwrap();
    let b = SessionId::from_string("b").unwrap();
    assert!(!replay.accept(&a, 0));
    assert!(replay.accept(&a, 5));
    assert!(!replay.accept(&a, 5));
    assert!(!replay.accept(&a, 3));
    assert!(replay.accept(&b, 1));
    assert!(replay.accept(&a, u64::MAX));
    assert!(!replay.accept(&a, u64::MAX));
    replay.forget(&a);
    assert!(replay.accept(&a, 1));
}
