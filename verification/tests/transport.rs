use clipsync::clipboard::{sha256_hex, ClipboardEvent, MIME_TEXT};
use clipsync::config::ClipboardConfig;
use clipsync::error::Error;
use clipsync::pairing::TrustedStore;
use clipsync::peer::PeerSession;
use clipsync::protocol::{
    Capabilities, DeviceId, DeviceInfo, DeviceKind, Message, PairFailReason, PROTOCOL_VERSION,
};
use clipsync::server::{IpAddress, ServerConfig, SocketAddress};
use clipsync::state::{
    peer_idle_timeout, peer_ping_interval, peer_ping_interval_for, peer_queue_size, superseded_message,
    ServerState,
};
use clipsync::transport::{
    await_hello, check_payload_size, enforce_caps, pairing_flow_at, pairing_timeout, ping, state_caps, Connection,
    ConnectionStep, Frame, FrameStep, Greeting, HelloStep, Incoming, PairingStep, Phase, MAX_BINARY_FRAME,
};
use std::time::Duration;

fn addr(n: u32, port: u16) -> SocketAddress {
    SocketAddress { ip: IpAddress::V4(n), port }
}

fn localhost() -> SocketAddress {
    addr(0x7f00_0001, 5000)
}

fn server() -> ServerState {
    ServerState::new(ServerConfig::default(), TrustedStore::default())
}

fn text(m: Message) -> Incoming {
    Incoming::Frame(Frame::Text { size: 100, message: Ok(m) })
}

fn garbage() -> Incoming {
    Incoming::Frame(Frame::Text { size: 5, message: Err("expected value".into()) })
}

fn device(name: &str) -> DeviceInfo {
    DeviceInfo::new(name, DeviceKind::Linux)
        .with_app_version("clipsync-harness 0.1.0")
        .with_capabilities(Capabilities { text: true, ..Capabilities::default() })
}

fn hello(device: DeviceInfo) -> Incoming {
    text(Message::Hello { v: PROTOCOL_VERSION, device })
}

fn connect(state: &mut ServerState, device: DeviceInfo) -> (Connection, Greeting) {
    let mut c = Connection::new(PeerSession::new(localhost()));
    match c.take(state, hello(device)) {
        ConnectionStep::Greeted(g) => (c, g),
        other => panic!("unexpected {other:?}"),
    }
}

fn challenge_of(g: Greeting) -> (String, String, i64) {
    match g {
        Greeting::Challenge {
            message: Message::PairChallenge { challenge_id, expires_at, nonce },
        } => (challenge_id, nonce, expires_at),
        other => panic!("esperava pair_challenge, recebeu {other:?}"),
    }
}

fn submit(
    state: &mut ServerState,
    c: &mut Connection,
    challenge_id: String,
    nonce: String,
    code: &str,
) -> PairingStep {
    match c.take(state, text(Message::PairSubmit { challenge_id, code: code.into(), nonce })) {
        ConnectionStep::Pairing(p) => p,
        other => panic!("unexpected {other:?}"),
    }
}

/// Pairs a new device and gives back its connection and identifier.
fn pair(state: &mut ServerState, name: &str) -> (Connection, DeviceId) {
    let (mut c, g) = connect(state, device(name));
    let (challenge_id, nonce, _) = challenge_of(g);
    let code = state.pairing.active_pin().expect("PIN ativo após pair_challenge");
    assert_eq!(code.len(), 6, "PIN deve ter 6 dígitos");
    let change = match submit(state, &mut c, challenge_id, nonce, &code) {
        PairingStep::Save(change) => change,
        other => panic!("unexpected {other:?}"),
    };
    let (message, replaced) = c.saved(state, change, Ok(())).unwrap();
    assert!(replaced.is_none());
    match message {
        Message::PairOk { device_id, server_id, session_id, server_name, capabilities } => {
            assert!(!session_id.is_empty(), "session_id presente");
            assert_eq!(server_id, Some(state.config.device_id.clone()));
            assert_eq!(server_name, "linux-desktop");
            assert!(capabilities.text, "text habilitado no pareamento");
            assert!(state.pairing.is_trusted(&device_id), "device confiado após o pareamento");
            (c, device_id)
        }
        other => panic!("esperava pair_ok, recebeu {}", other.kind_name()),
    }
}

fn clipboard_text(content: &str, origin: &str) -> Message {
    Message::ClipboardText {
        mime: MIME_TEXT.to_owned(),
        content: content.to_owned(),
        origin: DeviceId::from(origin),
        sha256: sha256_hex(content.as_bytes()),
    }
}

fn frame_step(step: ConnectionStep) -> FrameStep {
    match step {
        ConnectionStep::Frame(f) => f,
        other => panic!("unexpected {other:?}"),
    }
}

#[test]
fn full_handshake_and_clipboard_roundtrip() {
    let mut state = server();
    let (mut c, device_id) = pair(&mut state, "harness-integration");
    assert_eq!(state.peer_count(), 1);

    let recipients = state.broadcast_except(None);
    assert_eq!(recipients.len(), 1);
    assert_eq!(recipients[0].device_id, device_id);
    assert_eq!(recipients[0].session_id, c.session.session_id());

    let client_content = "texto copiado no phone (enviado pelo client)";
    match frame_step(c.take(&mut state, text(clipboard_text(client_content, device_id.as_str())))) {
        FrameStep::Relay { event: Some(ClipboardEvent::Changed(snap)), recipients, .. } => {
            assert_eq!(snap.text(), Some(client_content));
            assert_eq!(snap.sha256, sha256_hex(client_content.as_bytes()));
            assert!(recipients.is_empty());
        }
        other => panic!("unexpected {other:?}"),
    }
}

#[test]
fn pair_challenge_never_leaks_pin_on_wire() {
    let mut state = server();
    let (mut c, g) = connect(&mut state, device("harness-leak"));
    let (challenge_id, nonce, _) = challenge_of(g);
    let pin = state.pairing.active_pin().expect("PIN ativo no servidor");
    assert_ne!(challenge_id, pin);
    assert_ne!(nonce, pin);
    assert!(matches!(
        submit(&mut state, &mut c, challenge_id, nonce, &pin),
        PairingStep::Save(_)
    ));
}

#[test]
fn pair_submit_wrong_pin_fails_with_invalid() {
    let mut state = server();
    let (mut c, g) = connect(&mut state, device("harness-wrong"));
    let (challenge_id, nonce, _) = challenge_of(g);
    match submit(&mut state, &mut c, challenge_id, nonce, "000000") {
        PairingStep::Refuse { reply: Message::PairFail { reason, .. }, .. } => {
            assert_eq!(reason, PairFailReason::InvalidCode);
        }
        other => panic!("esperava pair_fail, recebeu {other:?}"),
    }
}

#[test]
fn server_overrides_forged_origin_with_authenticated_device_id() {
    let mut state = server();
    let (mut a, device_a) = pair(&mut state, "a");
    let (b, device_b) = pair(&mut state, "b");
    assert_ne!(device_a, device_b, "pareamentos geram device_ids distintos");
    assert_eq!(state.peer_count(), 2);
    let forged_content = "texto com origin forjado";
    match frame_step(
        a.take(&mut state, text(clipboard_text(forged_content, "origin-forjado-pelo-client"))),
    ) {
        FrameStep::Relay {
            message: Message::ClipboardText { content, origin, .. }, recipients, ..
        } => {
            assert_eq!(content, forged_content);
            assert_eq!(origin, device_a, "origin deve ser o device_id autenticado de A");
            assert_eq!(recipients.len(), 1);
            assert_eq!(recipients[0].session_id, b.session.session_id());
        }
        other => panic!("unexpected {other:?}"),
    }
}

#[test]
fn wrong_pin_returns_pair_fail_with_invalid_code() {
    let mut state = server();
    let (mut c, g) = connect(&mut state, device("harness-wrong-pin"));
    let (challenge_id, nonce, _) = challenge_of(g);
    match submit(&mut state, &mut c, challenge_id, nonce, "000000") {
        PairingStep::Refuse { reply: Message::PairFail { reason, message }, error } => {
            assert_eq!(reason, PairFailReason::InvalidCode);
            assert!(!message.is_empty(), "PairFail message não pode ser vazia");
            assert_eq!(error, Error::Pairing("PIN incorreto".into()));
        }
        other => panic!("esperava pair_fail, recebeu {other:?}"),
    }
    assert!(matches!(c.phase, Phase::Closed));
    assert!(state.pairing.challenge().is_none());
    assert_eq!(state.peer_count(), 0, "nenhum peer após pareamento falho");
}

#[test]
fn trusted_device_skips_pairing() {
    let mut state = server();
    let (mut first, device_id) = pair(&mut state, "first");
    assert_eq!(state.peer_count(), 1);
    first.finish(&mut state);
    assert_eq!(state.peer_count(), 0);

    let mut d = device("trusted-reconnect");
    d.id = Some(device_id.clone());
    let (second, g) = connect(&mut state, d);
    match g {
        Greeting::Welcome {
            message: Message::PairOk { device_id: did, session_id, server_name, capabilities, .. },
            replaced,
        } => {
            assert_eq!(did, device_id, "mesmo device_id no reconnect confiado");
            assert!(!session_id.is_empty(), "session_id presente");
            assert_eq!(server_name, "linux-desktop");
            assert!(capabilities.text, "text habilitado");
            assert!(replaced.is_none());
        }
        other => panic!("esperava pair_ok no reconnect confiado, recebeu {other:?}"),
    }
    assert!(matches!(second.phase, Phase::Open));
    assert_eq!(second.session.name, "first");
    assert_eq!(state.peer_count(), 1);
    assert!(state.pairing.is_trusted(&device_id), "device permanece confiado após reconnect");
}

#[test]
fn two_clients_anti_echo() {
    let mut state = server();
    let (mut a, device_a) = pair(&mut state, "a");
    let (b, device_b) = pair(&mut state, "b");
    assert_ne!(device_a, device_b, "pareamentos geram ids distintos");
    assert_eq!(state.peer_count(), 2);
    let content = "texto anti-eco de A";
    match frame_step(a.take(&mut state, text(clipboard_text(content, device_a.as_str())))) {
        FrameStep::Relay {
            message: Message::ClipboardText { content: c, origin, sha256, .. }, recipients, ..
        } => {
            assert_eq!(c, content);
            assert_eq!(origin, device_a);
            assert_eq!(sha256, sha256_hex(content.as_bytes()));
            let to: Vec<_> = recipients.iter().map(|p| p.session_id.as_str()).collect();
            assert_eq!(to, vec![b.session.session_id()]);
        }
        other => panic!("unexpected {other:?}"),
    }
}

#[test]
fn malformed_frames_handled_gracefully() {
    let mut state = server();
    let mut c = Connection::new(PeerSession::new(localhost()));
    match c.take(&mut state, garbage()) {
        ConnectionStep::Failed(e) => {
            assert_eq!(e, Error::Protocol("JSON inválido: expected value".into()))
        }
        other => panic!("unexpected {other:?}"),
    }
    assert!(matches!(c.phase, Phase::Closed));

    let mut c = Connection::new(PeerSession::new(localhost()));
    match c.take(&mut state, text(clipboard_text("too early", "x"))) {
        ConnectionStep::Failed(e) => {
            assert_eq!(e, Error::Protocol("primeira mensagem deve ser hello".into()))
        }
        other => panic!("unexpected {other:?}"),
    }
    assert!(matches!(c.take(&mut state, hello(device("late"))), ConnectionStep::Closed));

    let (mut c, _) = pair(&mut state, "c");
    assert!(matches!(frame_step(c.take(&mut state, garbage())), FrameStep::Continue));
    let content = "still working after bad json";
    match frame_step(c.take(&mut state, text(clipboard_text(content, "x")))) {
        FrameStep::Relay { event: Some(ClipboardEvent::Changed(snap)), .. } => {
            assert_eq!(snap.text(), Some(content));
            assert_eq!(snap.sha256, sha256_hex(content.as_bytes()));
        }
        other => panic!("unexpected {other:?}"),
    }
}

#[test]
fn reconnect_supersedes_old_session() {
    let mut state = server();
    let (mut a, device_id) = pair(&mut state, "a");
    assert_eq!(state.peer_count(), 1);
    let mut d = device("reconnect-B");
    d.id = Some(device_id.clone());
    let (b, g) = connect(&mut state, d);
    match g {
        Greeting::Welcome {
            message: Message::PairOk { device_id: did, session_id, .. },
            replaced: Some(old),
        } => {
            assert_eq!(did, device_id, "mesmo device_id na nova sessão");
            assert_eq!(session_id, b.session.session_id());
            assert_eq!(old.session_id, a.session.session_id());
        }
        other => panic!("unexpected {other:?}"),
    }
    match superseded_message() {
        Message::Error { code, message } => {
            assert_eq!(code, "superseded");
            assert!(!message.is_empty(), "mensagem de superseded não pode ser vazia");
        }
        other => panic!("unexpected {}", other.kind_name()),
    }
    assert_eq!(state.peer_count(), 1);
    a.finish(&mut state);
    assert_eq!(state.peer_count(), 1, "o fim da sessão antiga não remove a nova");
    assert_eq!(state.broadcast_except(None)[0].session_id, b.session.session_id());
}

#[test]
fn hello_errors_are_told_apart() {
    let error = |item: Incoming| match await_hello(item) {
        HelloStep::Failed(e) => e.to_string(),
        other => panic!("unexpected {other:?}"),
    };
    let p = "invalid protocol message: ";
    assert_eq!(
        error(text(Message::Hello { v: 2, device: device("x") })),
        format!("{p}versão incompatível: cliente 2, servidor 1")
    );
    assert_eq!(error(Incoming::Frame(Frame::Close)), format!("{p}fechado antes do hello"));
    assert_eq!(
        error(Incoming::Frame(Frame::Binary { size: 1 })),
        format!("{p}esperava hello (texto), recebeu binário")
    );
    assert_eq!(error(Incoming::Ended), format!("{p}conexão fechada durante handshake"));
    assert_eq!(error(Incoming::Failed("reset".into())), "websocket error: reset");
    assert!(matches!(await_hello(Incoming::Frame(Frame::Ping { size: 0 })), HelloStep::Wait));
    assert!(matches!(await_hello(Incoming::Frame(Frame::Pong { size: 0 })), HelloStep::Wait));
}

#[test]
fn pairing_waits_and_breaks_off() {
    let mut state = server();
    let (mut c, _) = connect(&mut state, device("x"));
    for quiet in [
        Frame::Ping { size: 0 },
        Frame::Pong { size: 0 },
        Frame::Binary { size: 9 },
    ] {
        assert!(matches!(
            c.take(&mut state, Incoming::Frame(quiet)),
            ConnectionStep::Pairing(PairingStep::Wait)
        ));
    }
    let cases: [(Incoming, &str); 5] = [
        (text(Message::Ping { ts: 1 }), "invalid protocol message: pareamento interrompido"),
        (garbage(), "invalid protocol message: JSON inválido: expected value"),
        (Incoming::Frame(Frame::Close), "invalid protocol message: fechado durante pareamento"),
        (Incoming::Ended, "invalid protocol message: conexão fechada durante pareamento"),
        (Incoming::Failed("e".into()), "websocket error: e"),
    ];
    for (item, want) in cases {
        let (mut c, _) = connect(&mut state, device("x"));
        match c.take(&mut state, item) {
            ConnectionStep::Pairing(PairingStep::Failed(e)) => assert_eq!(e.to_string(), want),
            other => panic!("unexpected {other:?}"),
        }
        assert!(matches!(c.phase, Phase::Closed));
        c.finish(&mut state);
        assert!(state.pairing.challenge().is_none());
    }
    let (c, _) = connect(&mut state, device("x"));
    assert_eq!(
        pairing_timeout(&mut state, &c.session),
        Error::Pairing("tempo de pareamento expirado".into())
    );
    assert!(state.pairing.challenge().is_none());
}

#[test]
fn trust_that_could_not_be_saved_lets_nobody_in() {
    let mut state = server();
    let (mut c, g) = connect(&mut state, device("x"));
    let (challenge_id, nonce, _) = challenge_of(g);
    let code = state.pairing.active_pin().unwrap();
    let change = match submit(&mut state, &mut c, challenge_id, nonce, &code) {
        PairingStep::Save(change) => change,
        other => panic!("unexpected {other:?}"),
    };
    let e = c.saved(&mut state, change, Err(Error::Config("disk".into()))).unwrap_err();
    assert_eq!(e, Error::Config("disk".into()));
    assert_eq!(state.peer_count(), 0);
    assert!(state.pairing.trusted_devices().is_empty());
    assert_eq!(state.pairing.active_pin(), Some(code));
}

#[test]
fn open_connections_answer_signs_of_life() {
    let mut state = server();
    let (mut c, _) = pair(&mut state, "c");
    match frame_step(c.take(&mut state, text(Message::Ping { ts: 42 }))) {
        FrameStep::Reply(Message::Pong { ts }) => assert_eq!(ts, 42),
        other => panic!("unexpected {other:?}"),
    }
    assert!(matches!(
        frame_step(c.take(&mut state, text(Message::Pong { ts: 1 }))),
        FrameStep::ResetIdle
    ));
    assert!(matches!(
        frame_step(c.take(&mut state, Incoming::Frame(Frame::Binary { size: MAX_BINARY_FRAME }))),
        FrameStep::Failed(Error::Protocol(_))
    ));
    let mut unlimited = server();
    unlimited.config.limits.bytes_per_minute = 0;
    let mut config = ServerConfig::default();
    config.limits.bytes_per_minute = 0;
    config.limits.messages_per_minute = 0;
    let mut state = ServerState::new(config, TrustedStore::default());
    let (mut c, _) = pair(&mut state, "c");
    assert!(matches!(
        frame_step(c.take(&mut state, Incoming::Frame(Frame::Binary { size: MAX_BINARY_FRAME }))),
        FrameStep::Continue
    ));
    assert!(matches!(
        frame_step(c.take(&mut state, Incoming::Frame(Frame::Ping { size: 1 }))),
        FrameStep::Continue
    ));
    match frame_step(
        c.take(&mut state, Incoming::Frame(Frame::Binary { size: MAX_BINARY_FRAME + 1 })),
    ) {
        FrameStep::Failed(e) => assert_eq!(
            e,
            Error::PayloadTooLarge { size: MAX_BINARY_FRAME + 1, max: MAX_BINARY_FRAME }
        ),
        other => panic!("unexpected {other:?}"),
    }
    let (mut c, _) = pair(&mut state, "d");
    assert!(matches!(
        frame_step(c.take(&mut state, Incoming::Frame(Frame::Close))),
        FrameStep::Break
    ));
    let (mut c, _) = pair(&mut state, "e");
    assert!(matches!(frame_step(c.take(&mut state, Incoming::Ended)), FrameStep::Break));
}

#[test]
fn a_peer_over_its_rate_is_cut_off() {
    let mut config = ServerConfig::default();
    config.limits.messages_per_minute = 2;
    let mut state = ServerState::new(config, TrustedStore::default());
    let (mut c, _) = pair(&mut state, "c");
    for _ in 0..2 {
        assert!(matches!(
            frame_step(c.take(&mut state, text(Message::Pong { ts: 1 }))),
            FrameStep::ResetIdle
        ));
    }
    match frame_step(c.take(&mut state, text(Message::Pong { ts: 1 }))) {
        FrameStep::Failed(e) => assert_eq!(e, Error::Protocol("rate limit exceeded".into())),
        other => panic!("unexpected {other:?}"),
    }
    assert!(matches!(c.phase, Phase::Closed));
}

#[test]
fn refused_content_is_answered_and_goes_nowhere() {
    let mut config = ServerConfig::default();
    config.clipboard.max_text_bytes = 3;
    config.clipboard.sync_images = false;
    let mut state = ServerState::new(config, TrustedStore::default());
    let (mut c, _) = pair(&mut state, "c");
    match frame_step(c.take(&mut state, text(clipboard_text("abcd", "x")))) {
        FrameStep::Reply(Message::Error { code, message }) => {
            assert_eq!(code, "payload_too_large");
            assert_eq!(message, "payload too large: 4 bytes (max 3)");
        }
        other => panic!("unexpected {other:?}"),
    }
    let image = Message::ClipboardImage {
        mime: "image/png".into(),
        data_b64: "AA==".into(),
        width: Some(1),
        height: None,
        sha256: "h".into(),
        origin: DeviceId::from("x"),
    };
    match frame_step(c.take(&mut state, text(image))) {
        FrameStep::Reply(Message::Error { code, message }) => {
            assert_eq!(code, "capability_disabled");
            assert_eq!(message, "tipo 'clipboard_image' não habilitado na config");
        }
        other => panic!("unexpected {other:?}"),
    }
}

#[test]
fn check_payload_size_rejects_oversized_text() {
    let config = ServerConfig::default();
    let big = "x".repeat(17 * 1024 * 1024);
    let msg = Message::ClipboardText {
        mime: "text/plain".into(),
        content: big,
        origin: DeviceId::new(),
        sha256: "abc".into(),
    };
    assert!(check_payload_size(&config.clipboard, &msg).is_err());
}

#[test]
fn payload_limits_are_exact() {
    let mut cfg = ClipboardConfig::default();
    cfg.max_image_bytes = 6;
    cfg.max_text_bytes = 2;
    let image = |n: usize| Message::ClipboardImage {
        mime: "image/png".into(),
        data_b64: "A".repeat(n),
        width: None,
        height: None,
        sha256: "h".into(),
        origin: DeviceId::from("x"),
    };
    assert!(check_payload_size(&cfg, &image(8)).is_ok());
    assert_eq!(
        check_payload_size(&cfg, &image(9)).unwrap_err(),
        Error::PayloadTooLarge { size: 9, max: 8 }
    );
    let html = |s: &str| Message::ClipboardHtml {
        html: s.into(),
        alt: None,
        sha256: "h".into(),
        origin: DeviceId::from("x"),
    };
    assert!(check_payload_size(&cfg, &html("é")).is_ok());
    assert!(check_payload_size(&cfg, &html("éa")).is_err());
    assert!(check_payload_size(&cfg, &Message::Ping { ts: 0 }).is_ok());
    assert_eq!(
        enforce_caps(&cfg, &html("x")).unwrap_err(),
        Error::Protocol("capability não habilitada".into())
    );
    assert!(enforce_caps(&cfg, &image(1)).is_ok());
}

#[test]
fn an_image_of_the_largest_size_is_let_through() {
    let mut cfg = ClipboardConfig::default();
    let image = |data: String| Message::ClipboardImage {
        mime: "image/png".into(),
        data_b64: data,
        width: None,
        height: None,
        sha256: "h".into(),
        origin: DeviceId::from("o"),
    };
    cfg.max_image_bytes = 4;
    assert!(check_payload_size(&cfg, &image("AAECAw==".into())).is_ok());
    assert_eq!(
        check_payload_size(&cfg, &image("A".repeat(9))).unwrap_err(),
        Error::PayloadTooLarge { size: 9, max: 8 }
    );
    cfg.max_image_bytes = 0;
    assert!(check_payload_size(&cfg, &image("AA==".into())).is_err());
    cfg.max_image_bytes = u64::MAX;
    assert!(check_payload_size(&cfg, &image("AA==".into())).is_ok());
}

#[test]
fn pair_fail_reason_display() {
    assert_eq!(PairFailReason::InvalidCode.to_string(), "invalid_code");
    assert_eq!(PairFailReason::Expired.to_string(), "expired");
    assert_eq!(PairFailReason::TooManyAttempts.to_string(), "too_many_attempts");
    assert_eq!(PairFailReason::Banned.to_string(), "banned");
    assert_eq!(PairFailReason::Internal.to_string(), "internal");
}

#[test]
fn capabilities_are_what_both_sides_have() {
    let mut config = ServerConfig::default();
    config.clipboard.sync_html = true;
    let d = DeviceInfo::new("x", DeviceKind::Ios).with_capabilities(Capabilities {
        text: true,
        html: true,
        images: false,
        files: true,
    });
    assert_eq!(
        state_caps(&config, &d),
        Capabilities { text: true, html: true, images: false, files: false }
    );
}

#[test]
fn add_remove_peer() {
    let mut state = server();
    let id = DeviceId::new();
    assert!(state.add_peer(localhost(), &id, "phone", "s").is_none());
    assert_eq!(state.peer_count(), 1);
    assert!(state.remove_peer(&id, "other").is_none());
    assert_eq!(state.peer_count(), 1);
    assert!(state.remove_peer(&id, "s").is_some());
    assert_eq!(state.peer_count(), 0);
}

#[test]
fn broadcast_skips_origin() {
    let mut state = server();
    let id_a = DeviceId::new();
    let id_b = DeviceId::new();
    state.add_peer(addr(0x0101_0101, 1), &id_a, "a", "sa");
    state.add_peer(addr(0x0202_0202, 2), &id_b, "b", "sb");
    let to = state.broadcast_except(Some(&id_a));
    assert_eq!(to.len(), 1);
    assert_eq!(to[0].device_id, id_b);
    assert_eq!(state.broadcast_except(None).len(), 2);
    assert_eq!(state.broadcast_except(Some(&DeviceId::from("nobody"))).len(), 2);
}

#[test]
fn peers_are_listed_by_name() {
    let mut state = server();
    for name in ["bela", "ana", "Zé", "ana b", "águia"] {
        state.add_peer_at(localhost(), &DeviceId::from(name), name, "s", 7);
    }
    let names: Vec<_> = state.peer_list().iter().map(|p| p.name.clone()).collect();
    let mut want = names.clone();
    want.sort();
    assert_eq!(names, want);
    assert_eq!(names.len(), 5);
    assert_eq!(state.peer_list()[0].connected_at, 7);
}

#[test]
fn attach_and_send() {
    let mut state = server();
    let mut session = PeerSession::with_id(localhost(), "session");
    let id = DeviceId::new();
    assert!(session.attach(&mut state, id.clone(), "phone").is_none());
    assert_eq!(session.peer_id(), &id);
    assert_eq!(state.peer_count(), 1);
    assert_eq!(state.broadcast_except(None)[0].session_id, "session");
    session.detach(&mut state);
    assert_eq!(state.peer_count(), 0);
    session.detach(&mut state);
    assert_eq!(state.peer_count(), 0);
}

#[test]
fn capabilities_default_false() {
    let caps = Capabilities::default();
    assert!(!caps.files);
    assert!(!caps.text);
}

#[test]
fn ping_interval_adapts_to_peer_count() {
    let secs = |n: u64| Duration::from_secs(n);
    assert_eq!(secs(peer_ping_interval_for(0)), Duration::from_secs(120));
    assert_eq!(secs(peer_ping_interval_for(1)), Duration::from_secs(30));
    assert_eq!(secs(peer_ping_interval_for(7)), Duration::from_secs(30));
    assert_eq!(secs(peer_ping_interval()), Duration::from_secs(30));
    assert_eq!(peer_idle_timeout(), 60);
    assert_eq!(peer_queue_size(), 128);
}

#[test]
fn pings_carry_the_time() {
    match ping() {
        Message::Ping { ts } => assert!(ts > 1_600_000_000),
        other => panic!("unexpected {}", other.kind_name()),
    }
}

#[test]
fn challenges_expire_after_the_configured_time() {
    let mut state = server();
    let (_, g) = connect(&mut state, device("x"));
    let (_, _, expires_at) = challenge_of(g);
    match ping() {
        Message::Ping { ts } => assert!((expires_at - 120 - ts).abs() <= 5),
        other => panic!("unexpected {}", other.kind_name()),
    }
}

#[test]
fn a_right_code_is_accepted_until_it_expires() {
    for (late, accepted) in [(false, true), (true, false)] {
        let mut state = server();
        let (connection, greeting) = connect(&mut state, device("Pixel"));
        let (challenge_id, nonce, _) = challenge_of(greeting);
        let challenge = state.pairing.challenge().unwrap();
        let (code, end) = (challenge.code.clone(), challenge.expires_at);
        let now = if late { end } else { end - 1 };
        let item = text(Message::PairSubmit { challenge_id, code, nonce });
        let step = pairing_flow_at(&mut state, &connection.session, &device("Pixel"), item, now);
        match step {
            PairingStep::Save(_) => assert!(accepted),
            PairingStep::Refuse { reply, .. } => {
                assert!(!accepted);
                assert!(matches!(
                    reply,
                    Message::PairFail { reason: PairFailReason::Expired, .. }
                ));
                assert!(state.pairing.challenge().is_none());
            }
            other => panic!("unexpected {other:?}"),
        }
    }
}
