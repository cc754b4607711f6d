use clipsync::auth::{GroupAuthorizer, GroupId, RelayEnvelope, SessionId};
use clipsync::config::{Config, LimitsConfig, Transport};
use clipsync::protocol::{Capabilities, DeviceId, DeviceInfo, DeviceKind, Message, PROTOCOL_VERSION};
use clipsync::relay::{
    begin_upgrade, finish_upgrade, handle_hello, health_text, ready_answer, same_device, AuthError,
    FileTokenProvider, RelayAction, RelayConfig, RelayConnection, RelayContent, RelayFrame, RelayIdentity,
    RelayIncoming, RelayPeer, RelayState, RelayStep, WireEnvelope, DEFAULT_QUEUE_CAPACITY,
};
use clipsync::server::IpAddress;

const LOCALHOST: IpAddress = IpAddress::V4(0x7f00_0001);

fn identity(account: &str, device: &str) -> RelayIdentity {
    RelayIdentity {
        account_id: account.into(),
        device_id: device.into(),
        session_id: SessionId::from_string(&format!("session-{device}")).unwrap(),
        group_id: GroupId::from_string(&format!("group-{account}")).unwrap(),
    }
}

fn relay() -> RelayState {
    RelayState::with_groups_and_limits(GroupAuthorizer::default(), LimitsConfig::default())
}

fn with_members(members: &[&RelayIdentity]) -> RelayState {
    let mut groups = GroupAuthorizer::default();
    for m in members {
        groups.add_member(m.group_id.clone(), m.device_id.clone());
    }
    RelayState::with_groups_and_limits(groups, LimitsConfig::default())
}

fn text(content: &str, origin: &str) -> Message {
    Message::ClipboardText {
        mime: "text/plain".into(),
        content: content.into(),
        origin: origin.into(),
        sha256: "hash".into(),
    }
}

fn frame(m: Message) -> RelayFrame {
    RelayFrame::Text { size: 10, content: RelayContent::Message(m) }
}

#[test]
fn file_token_provider_reads_expected_format_without_plaintext_storage() {
    let provider =
        FileTokenProvider::from_text("smoke-token account device session group\n").unwrap();
    let verified = provider.verify("smoke-token").unwrap();
    assert_eq!(verified.account_id, "account");
    assert_eq!(verified.device_id, DeviceId::from("device"));
    assert_eq!(verified.session_id.as_str(), "session");
    assert_eq!(verified.group_id.as_str(), "group");
    assert!(provider.verify("wrong-token").is_err());
    assert_eq!(AuthError.to_string(), "token rejected");
}

#[test]
fn token_files_are_checked_line_by_line() {
    let error = |t: &str| FileTokenProvider::from_text(t).err().unwrap();
    assert_eq!(error(""), "token file contains no credentials");
    assert_eq!(error("\n  # only a comment\n"), "token file contains no credentials");
    assert_eq!(error("# x\nt a d s\n"), "token file line 2: expected 5 fields");
    assert_eq!(error("t a d s g\n\nt b e u h\n"), "token file line 3: duplicate token");
    assert_eq!(error("t a d s g extra"), "token file line 1: expected 5 fields");
}

#[test]
fn authorizer_holds_each_tokens_device() {
    let provider =
        FileTokenProvider::from_text("t1 a d1 s g1\nt2 a d2 s g1\nt3 b d3 s g2\n").unwrap();
    let groups = provider.authorizer();
    let g1 = GroupId::from_string("g1").unwrap();
    let g2 = GroupId::from_string("g2").unwrap();
    assert!(groups.authorize(&"d1".into(), Some(&"d2".into()), &g1).is_ok());
    assert!(groups.authorize(&"d3".into(), None, &g1).is_err());
    assert!(groups.authorize(&"d3".into(), None, &g2).is_ok());
    assert!(groups.authorize(&"d1".into(), None, &GroupId::from_string("g3").unwrap()).is_err());
}

#[test]
fn two_clients_route_and_offline_is_dropped() {
    let mut state = relay();
    state.attach(identity("account", "a"));
    let (b_id, _) = state.attach(identity("account", "b"));
    let a = identity("account", "a");
    let d = state.route_by_source(&a.device_id, &a.group_id, None, text("hello", "spoofed"));
    assert_eq!(d.recipients, vec![b_id.to_string()]);
    match d.message {
        Message::ClipboardText { origin, .. } => assert_eq!(origin.as_str(), "a"),
        other => panic!("unexpected message: {}", other.kind_name()),
    }
    state.detach(b_id.as_str());
    let d = state.route_by_source(&a.device_id, &a.group_id, None, Message::Ping { ts: 2 });
    assert!(d.recipients.is_empty());
}

#[test]
fn full_queue_evicts_slow_session() {
    let mut state = relay();
    state.attach(identity("account", "a"));
    let (slow_id, _) = state.attach(identity("account", "b"));
    let a = identity("account", "a");
    let d = state.route_by_source(&a.device_id, &a.group_id, None, text("one", "a"));
    assert_eq!(d.recipients.len(), 1);
    let d = state.route_by_source(&a.device_id, &a.group_id, None, text("one", "a"));
    state.drop_sessions(&d.recipients);
    assert_eq!(state.len(), 1);
    assert!(!state.is_empty());
    let d = state.route_by_source(&a.device_id, &a.group_id, None, text("one", "a"));
    assert!(!d.recipients.contains(&slow_id.to_string()));
}

#[test]
fn reconnect_replaces_old_session_without_old_detach_removing_new() {
    let mut state = relay();
    let id = identity("account", "device");
    let (old_id, none) = state.attach(id.clone());
    assert!(none.is_empty());
    let (new_id, replaced) = state.attach(id);
    assert_eq!(replaced, vec![old_id.to_string()]);
    state.detach(old_id.as_str());
    assert_eq!(state.len(), 1);
    state.detach(new_id.as_str());
    assert_eq!(state.len(), 0);
    assert!(state.is_empty());
}

#[test]
fn replay_is_rejected_after_reconnect_but_new_session_starts_fresh() {
    let source = identity("account", "source");
    let target = identity("account", "target");
    let mut state = with_members(&[&source, &target]);
    let (target_session, _) = state.attach(target);
    let (old_session, _) = state.attach(source.clone());
    let envelope = |session_id: SessionId, sequence: u64| RelayEnvelope {
        session_id,
        source: source.device_id.clone(),
        destination: None,
        group: source.group_id.clone(),
        sequence,
        payload: Message::Ping { ts: sequence as i64 },
    };

    let d = state.route_envelope(envelope(old_session.clone(), 1), &source.device_id).unwrap();
    assert_eq!(d.recipients, vec![target_session.to_string()]);
    assert_eq!(
        state.route_envelope(envelope(old_session.clone(), 1), &source.device_id).unwrap_err(),
        "authorization rejected: Replay"
    );

    let (new_session, _) = state.attach(source.clone());
    assert_ne!(old_session, new_session);
    assert_eq!(
        state.route_envelope(envelope(old_session, 2), &source.device_id).unwrap_err(),
        "authorization rejected: inactive session"
    );
    let d = state.route_envelope(envelope(new_session, 1), &source.device_id).unwrap();
    assert_eq!(d.recipients.len(), 1);
}

#[test]
fn envelopes_stay_in_their_group() {
    let a = identity("one", "a");
    let b = identity("one", "b");
    let c = identity("two", "c");
    let mut state = with_members(&[&a, &b, &c]);
    let (sa, _) = state.attach(a.clone());
    let (sb, _) = state.attach(b.clone());
    state.attach(c.clone());
    let envelope = |destination: Option<&str>, group: &GroupId, sequence: u64| RelayEnvelope {
        session_id: sa.clone(),
        source: a.device_id.clone(),
        destination: destination.map(DeviceId::from),
        group: group.clone(),
        sequence,
        payload: text("x", "forged"),
    };
    let mut route = |e: RelayEnvelope| state.route_envelope(e, &a.device_id);
    assert_eq!(route(envelope(None, &a.group_id, 1)).unwrap().recipients, vec![sb.to_string()]);
    assert_eq!(
        route(envelope(Some("b"), &a.group_id, 2)).unwrap().recipients,
        vec![sb.to_string()]
    );
    assert_eq!(
        route(envelope(Some("c"), &a.group_id, 3)).unwrap_err(),
        "authorization rejected: DestinationNotMember"
    );
    assert_eq!(
        route(envelope(None, &c.group_id, 4)).unwrap_err(),
        "authorization rejected: SourceNotMember"
    );
    assert_eq!(
        route(envelope(None, &GroupId::from_string("none").unwrap(), 5)).unwrap_err(),
        "authorization rejected: UnknownGroup"
    );
    let mut forged = envelope(None, &a.group_id, 6);
    forged.source = b.device_id.clone();
    assert_eq!(route(forged).unwrap_err(), "authorization rejected: SourceMismatch");
}

#[test]
fn authenticated_hello_and_clipboard_round_trip_through_relay() {
    let source = identity("account", "source");
    let target = identity("account", "target");
    let mut state = with_members(&[&source, &target]);
    let (target_session, _) = state.attach(target);
    let hello = Message::Hello {
        v: PROTOCOL_VERSION,
        device: DeviceInfo::new("source", DeviceKind::Linux)
            .with_capabilities(Capabilities { text: true, ..Default::default() }),
    };
    assert!(handle_hello(&frame(hello), &source));
    let (session_id, _) = state.attach(source.clone());
    let mut connection =
        RelayConnection { identity: source.clone(), session_id, sequence: 0 };
    match connection.handle_frame(&mut state, frame(text("end-to-end", "forged")), LOCALHOST) {
        RelayAction::Deliver(d) => {
            assert_eq!(d.recipients, vec![target_session.to_string()]);
            match d.message {
                Message::ClipboardText { origin, content, .. } => {
                    assert_eq!(origin, source.device_id);
                    assert_eq!(content, "end-to-end");
                }
                other => panic!("unexpected message: {}", other.kind_name()),
            }
        }
        other => panic!("unexpected {other:?}"),
    }
    assert_eq!(connection.sequence, 1);
}

#[test]
fn first_frame_must_be_a_matching_hello() {
    let me = identity("account", "me");
    let hello = |v: u16, id: Option<&str>| {
        let mut device = DeviceInfo::new("n", DeviceKind::Linux);
        device.id = id.map(DeviceId::from);
        frame(Message::Hello { v, device })
    };
    assert!(handle_hello(&hello(PROTOCOL_VERSION, None), &me));
    assert!(handle_hello(&hello(PROTOCOL_VERSION, Some("me")), &me));
    assert!(!handle_hello(&hello(PROTOCOL_VERSION, Some("other")), &me));
    assert!(!handle_hello(&hello(PROTOCOL_VERSION + 1, None), &me));
    assert!(!handle_hello(&frame(Message::Ping { ts: 1 }), &me));
    assert!(!handle_hello(&RelayFrame::Binary { size: 1 }, &me));
    assert!(!handle_hello(&RelayFrame::Text { size: 1, content: RelayContent::Invalid }, &me));
}

#[test]
fn frames_are_answered_in_kind() {
    let me = identity("account", "me");
    let other = identity("account", "other");
    let mut state = with_members(&[&me, &other]);
    state.attach(other.clone());
    let (session_id, _) = state.attach(me.clone());
    let mut c = RelayConnection { identity: me.clone(), session_id: session_id.clone(), sequence: 0 };
    match c.take(&mut state, frame(Message::Ping { ts: 7 })) {
        RelayAction::Reply(Message::Pong { ts }) => assert_eq!(ts, 7),
        other => panic!("unexpected {other:?}"),
    }
    assert!(matches!(c.take(&mut state, frame(Message::Pong { ts: 7 })), RelayAction::Nothing));
    assert!(matches!(c.take(&mut state, RelayFrame::Ping { size: 1 }), RelayAction::Nothing));
    assert!(matches!(c.take(&mut state, RelayFrame::Pong { size: 1 }), RelayAction::Nothing));
    for bad in [
        RelayFrame::Binary { size: 1 },
        RelayFrame::Close,
        RelayFrame::Text { size: 1, content: RelayContent::Invalid },
        frame(Message::Hello { v: 1, device: DeviceInfo::new("n", DeviceKind::Linux) }),
        frame(Message::PairSubmit { challenge_id: "a".into(), code: "b".into(), nonce: "c".into() }),
    ] {
        assert!(matches!(c.take(&mut state, bad), RelayAction::Close));
    }
    let wire = |kind: &str, session: &str, sequence: u64| RelayFrame::Text {
        size: 1,
        content: RelayContent::Envelope(WireEnvelope {
            kind: kind.into(),
            session_id: SessionId::from_string(session).unwrap(),
            source: me.device_id.clone(),
            destination: Some(other.device_id.clone()),
            group: me.group_id.clone(),
            sequence,
            payload: text("x", "y"),
        }),
    };
    assert!(matches!(
        c.take(&mut state, wire("relay_envelope", session_id.as_str(), 5)),
        RelayAction::Deliver(_)
    ));
    assert!(matches!(
        c.take(&mut state, wire("relay_envelope", session_id.as_str(), 5)),
        RelayAction::Close
    ));
    assert!(matches!(c.take(&mut state, wire("other", session_id.as_str(), 6)), RelayAction::Close));
    assert!(matches!(c.take(&mut state, wire("relay_envelope", "else", 6)), RelayAction::Close));
    assert_eq!(c.sequence, 0);
}

#[test]
fn relay_config_deserializes_limits_and_derives_message_limit() {
    let mut config = Config::default();
    config.limits.max_connections = 7;
    config.limits.messages_per_minute = 11;
    config.limits.bytes_per_minute = 1234;
    let relay = RelayConfig::from_config(&config).unwrap();
    assert_eq!(relay.limits.max_connections, 7);
    assert_eq!(relay.limits.messages_per_minute, 11);
    assert_eq!(relay.limits.bytes_per_minute, 1234);
    assert_eq!(relay.max_message_bytes, config.clipboard.max_websocket_message_bytes());
}

#[test]
fn relay_needs_tls() {
    let mut config = Config::default();
    config.security.transport = Transport::PlaintextLegacy;
    assert_eq!(
        RelayConfig::from_config(&config).err().unwrap(),
        "relay exige security.transport = \"tls\"; plaintext não é suportado"
    );
    let mut d = RelayConfig::default();
    assert!(d.check_transport().is_ok());
    d.security.transport = Transport::PlaintextLegacy;
    assert_eq!(d.check_transport().unwrap_err(), "relay exige TLS; plaintext não é suportado");
    assert_eq!(d.bind, "0.0.0.0:9443");
    assert!(!d.security.local_only);
    assert_eq!(d.max_message_bytes, 8 * 1024 * 1024);
    assert_eq!(d.queue_capacity, DEFAULT_QUEUE_CAPACITY);
}

#[test]
fn admission_enforces_connection_and_message_limits() {
    let mut state = RelayState::with_groups_and_limits(
        GroupAuthorizer::default(),
        LimitsConfig { max_connections: 1, messages_per_minute: 1, bytes_per_minute: 4 },
    );
    assert!(state.try_connection());
    assert!(!state.try_connection());
    assert!(state.allow_message(LOCALHOST, 4));
    assert!(!state.allow_message(LOCALHOST, 1));
    state.release_connection();
    assert!(state.try_connection());
    assert_eq!(state.active(), 1);
}

#[test]
fn a_connection_over_its_rate_is_closed() {
    let me = identity("account", "me");
    let mut groups = GroupAuthorizer::default();
    groups.add_member(me.group_id.clone(), me.device_id.clone());
    let mut state = RelayState::with_groups_and_limits(
        groups,
        LimitsConfig { max_connections: 0, messages_per_minute: 1, bytes_per_minute: 0 },
    );
    let (session_id, _) = state.attach(me.clone());
    let mut c = RelayConnection { identity: me, session_id, sequence: 0 };
    assert!(matches!(
        c.handle_frame(&mut state, RelayFrame::Ping { size: 1 }, LOCALHOST),
        RelayAction::Nothing
    ));
    assert!(matches!(
        c.handle_frame(&mut state, RelayFrame::Ping { size: 1 }, LOCALHOST),
        RelayAction::Close
    ));
}

#[test]
fn upgrades_need_room_and_a_known_token() {
    let provider = FileTokenProvider::from_text("tok a d s g\n").unwrap();
    let mut state = RelayState::with_groups_and_limits(
        provider.authorizer(),
        LimitsConfig { max_connections: 1, messages_per_minute: 0, bytes_per_minute: 0 },
    );
    assert_eq!(begin_upgrade(&mut state, None), Err((401, "authorization required\n")));
    assert_eq!(begin_upgrade(&mut state, Some("Basic x")), Err((401, "bearer token required\n")));
    let token = begin_upgrade(&mut state, Some("Bearer nope")).unwrap();
    assert_eq!(token, "nope");
    assert_eq!(
        finish_upgrade(&mut state, provider.verify(&token)).err(),
        Some((401, "token rejected\n"))
    );
    assert_eq!(state.active(), 0);
    let token = begin_upgrade(&mut state, Some("Bearer tok")).unwrap();
    assert_eq!(
        finish_upgrade(&mut state, provider.verify(&token)).unwrap().device_id,
        DeviceId::from("d")
    );
    assert_eq!(
        begin_upgrade(&mut state, Some("Bearer tok")),
        Err((503, "connection quota exceeded\n"))
    );
    assert_eq!(health_text(3), "clipsync relay ok\nsessions 3\n");
    assert_eq!(ready_answer(false), (200, "clipsync relay ready\n"));
    assert_eq!(ready_answer(true), (503, "clipsync relay not ready\n"));
}

#[test]
fn nothing_is_routed_before_a_hello() {
    let me = identity("account", "me");
    let other = identity("account", "other");
    let mut state = with_members(&[&me, &other]);
    state.attach(other.clone());
    let hello = || {
        frame(Message::Hello { v: PROTOCOL_VERSION, device: DeviceInfo::new("n", DeviceKind::Linux) })
    };
    let mut early = RelayPeer::new(me.clone());
    assert!(state.try_connection());
    assert!(matches!(
        early.take(&mut state, RelayIncoming::Frame(frame(text("x", "y"))), LOCALHOST),
        RelayStep::Closed
    ));
    early.finish(&mut state);
    assert_eq!((state.len(), state.active()), (1, 0));

    let mut p = RelayPeer::new(me.clone());
    assert!(state.try_connection());
    assert!(matches!(
        p.take(&mut state, RelayIncoming::Frame(hello()), LOCALHOST),
        RelayStep::Attached(replaced) if replaced.is_empty()
    ));
    assert!(!p.is_exhausted());
    assert_eq!(state.len(), 2);
    assert!(matches!(
        p.take(&mut state, RelayIncoming::Frame(frame(text("x", "y"))), LOCALHOST),
        RelayStep::Act(RelayAction::Deliver(d)) if d.recipients.len() == 1
    ));
    assert!(matches!(
        p.take(&mut state, RelayIncoming::Frame(hello()), LOCALHOST),
        RelayStep::Act(RelayAction::Close)
    ));
    assert!(matches!(p.take(&mut state, RelayIncoming::Ended, LOCALHOST), RelayStep::Closed));
    p.finish(&mut state);
    assert_eq!((state.len(), state.active()), (1, 0));
}

#[test]
fn broken_connections_leave_their_session_to_be_dropped() {
    let me = identity("account", "me");
    let mut state = RelayState::default();
    for (last, left) in [(RelayIncoming::Ended, 0), (RelayIncoming::Failed, 1)] {
        let mut p = RelayPeer::new(me.clone());
        assert!(state.try_connection());
        let hello = Message::Hello {
            v: PROTOCOL_VERSION,
            device: DeviceInfo::new("n", DeviceKind::Linux),
        };
        let _ = p.take(&mut state, RelayIncoming::Frame(frame(hello)), LOCALHOST);
        assert!(matches!(p.take(&mut state, last, LOCALHOST), RelayStep::Closed));
        p.finish(&mut state);
        assert_eq!((state.len(), state.active()), (left, 0));
    }
}

#[test]
fn devices_are_told_apart_by_account_device_and_group() {
    let a = identity("x", "d");
    assert!(same_device(&a, &identity("x", "d")));
    assert!(!same_device(&a, &identity("y", "d")));
    assert!(!same_device(&a, &identity("x", "e")));
}

#[test]
fn token_file_must_be_its_owners_alone() {
    let line = "tok account device session group\n";
    for mode in [0o640, 0o604, 0o601] {
        assert_eq!(
            FileTokenProvider::from_file(mode, line).err().unwrap(),
            "token file must not be readable by group or other"
        );
    }
    let provider = FileTokenProvider::from_file(0o100600, line).unwrap();
    assert_eq!(provider.verify("tok").unwrap().group_id.as_str(), "group");
    assert!(provider.verify("account").is_err());
    assert_eq!(
        FileTokenProvider::from_file(0o600, "# none\n").err().unwrap(),
        "token file contains no credentials"
    );
}
