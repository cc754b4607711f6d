use clipsync::client::{
    device_kind, echo, hello, receive, resolve_url, share_text, typed_pin, EchoAction, Handshake,
    HandshakePhase, HandshakeStep, Style, SyncAction, TextSync, Wait,
};
use clipsync::clipboard::{sha256_hex, BackendKind, ClipboardEvent, ClipboardManager, MIME_TEXT};
use clipsync::config::{
    apply_env, ClipboardConfig, Config, EndpointConfig, EndpointScope, EnvOverrides, EnvValue, LimitsConfig,
    OutboundRoute, Transport,
};
use clipsync::daemon::{on_local_event, startup_plan, LocalAction, StartupPlan};
use clipsync::discovery::{
    announced_ip, dotted, full_type, host_instance, sanitize_instance, service_lines, txt_properties,
    Browse, BrowseEvent, DiscoveredService,
};
use clipsync::error::Error;
use clipsync::outbound::{
    bearer_from_file, bearer_header, credential, lan_handshake, normalize_pin, ordered_endpoints,
    outbound_hello, plan_connection, session_step, target, CredentialSource, LanStep, OutboundManager,
    OutboundStep, UrlParts,
};
use clipsync::pairing::TrustedStore;
use clipsync::persistence::{
    exhausted_text, next_attempt, temporary_name, temporary_name_for, Attempt, NextAttempt,
};
use clipsync::protocol::{
    Capabilities, DeviceId, DeviceInfo, DeviceKind, Message, PairFailReason, PROTOCOL_VERSION,
};
use clipsync::server::{
    answer_request, is_local_address, ready_answer, refusal_answer, Admission, Entry, IpAddress, ServerConfig,
    SocketAddress,
};
use clipsync::state::ServerState;
use clipsync::tls::{
    certificate_names, fingerprint, generate, generated, needs_generation, normalize_fingerprint, pin_matches, Identity,
};
use clipsync::transport::{Frame, Incoming};
use clipsync::tray::{
    on_command, on_command_at, peers_notice, pin_notice, status_at, status_of, DaemonState, TrayAction, TrayCommand, TrayStatus,
};

fn v4(a: u32, b: u32, c: u32, d: u32) -> IpAddress {
    IpAddress::V4(a << 24 | b << 16 | c << 8 | d)
}

fn text(m: Message) -> Incoming {
    Incoming::Frame(Frame::Text { size: 1, message: Ok(m) })
}

fn garbage() -> Incoming {
    Incoming::Frame(Frame::Text { size: 1, message: Err("bad".into()) })
}

// Messages

#[test]
fn device_identifiers() {
    let a = DeviceId::new();
    assert_eq!(a.as_str().len(), 36);
    assert_eq!(a.as_str().as_bytes()[14], b'4');
    assert_ne!(a, DeviceId::default());
    assert_eq!(DeviceId::from("x"), DeviceId::from("x".to_owned()));
    assert_eq!(DeviceId::from("x").to_string(), "x");
}

#[test]
fn device_descriptions_are_built_up() {
    let d = DeviceInfo::new("Pixel 8", DeviceKind::Android)
        .with_os_version("Android 14")
        .with_app_version("clipsync-android 0.1.0")
        .with_capabilities(Capabilities { text: true, html: false, images: true, files: false });
    assert!(d.id.is_none());
    assert_eq!(d.name, "Pixel 8");
    assert_eq!(d.os_version.as_deref(), Some("Android 14"));
    assert_eq!(d.app_version.as_deref(), Some("clipsync-android 0.1.0"));
    assert!(d.capabilities.images && d.kind.is_mobile());
    assert!(DeviceKind::Ios.is_mobile() && !DeviceKind::Linux.is_mobile());
    let names: Vec<_> = [
        DeviceKind::Android,
        DeviceKind::Linux,
        DeviceKind::Macos,
        DeviceKind::Windows,
        DeviceKind::Ios,
        DeviceKind::Other,
    ]
    .iter()
    .map(|k| k.to_string())
    .collect();
    assert_eq!(names, vec!["android", "linux", "macos", "windows", "ios", "other"]);
}

#[test]
fn origins_are_replaced_in_clipboard_messages_only() {
    let id = DeviceId::from("true");
    let m = share_text("x", &DeviceId::from("forged")).with_origin(&id);
    assert!(m.is_clipboard());
    match &m {
        Message::ClipboardText { origin, content, .. } => {
            assert_eq!(origin, &id);
            assert_eq!(content, "x");
        }
        other => panic!("unexpected {}", other.kind_name()),
    }
    assert!(!Message::Ping { ts: 1 }.is_clipboard());
    match (Message::Ping { ts: 1 }).with_origin(&id) {
        Message::Ping { ts } => assert_eq!(ts, 1),
        other => panic!("unexpected {}", other.kind_name()),
    }
    assert_eq!(m.clone().kind_name(), "clipboard_text");
}

#[test]
fn errors_in_words() {
    assert_eq!(Error::Io("x".into()).to_string(), "io error: x");
    assert_eq!(Error::Http("x".into()).to_string(), "http error: x");
    assert_eq!(Error::Serde("x".into()).to_string(), "serde error: x");
    assert_eq!(Error::Mdns("x".into()).to_string(), "mDNS error: x");
    assert_eq!(Error::Config("x".into()).to_string(), "config error: x");
    assert_eq!(Error::Pairing("x".into()).to_string(), "pairing failed: x");
    assert_eq!(Error::StoreBusy("x".into()).to_string(), "store busy: x");
    assert_eq!(
        Error::PayloadTooLarge { size: 10, max: 9 }.to_string(),
        "payload too large: 10 bytes (max 9)"
    );
}

// Settings

#[test]
fn websocket_limit_covers_clipboard_envelopes() {
    let cfg = ClipboardConfig::default();

    assert_eq!(cfg.max_websocket_message_bytes(), 6 * 16 * 1024 * 1024 + 8 * 1024);
    assert!(cfg.max_websocket_message_bytes() > 25 * 1024 * 1024 * 4 / 3);
}

#[test]
fn websocket_limit_saturates() {
    let mut cfg = ClipboardConfig::default();
    cfg.max_text_bytes = u64::MAX;
    assert_eq!(cfg.max_websocket_message_bytes(), usize::MAX);
    cfg.max_text_bytes = 0;
    cfg.max_image_bytes = 4;
    assert_eq!(cfg.max_websocket_message_bytes(), 8 + 8192);
}

#[test]
fn load_or_default_persists_stable_daemon_device_id() {
    let (first, save) = Config::settle(None);
    assert!(save);
    let id = first.device_id.clone().expect("device_id gerado no primeiro load");
    assert_eq!(id.as_str().len(), 36, "device_id é uuid");
    assert_eq!(first.bind, "0.0.0.0:8765");

    let (second, save) = Config::settle(Some(first));
    assert!(!save);
    assert_eq!(second.device_id, Some(id));

    let (third, save) = Config::settle(Some(Config::default()));
    assert!(save && third.device_id.is_some());
}

fn no_env() -> EnvOverrides {
    EnvOverrides {
        bind: None,
        name: None,
        enable_mdns: None,
        transport: None,
        local_only: None,
        max_connections: None,
        messages_per_minute: None,
        bytes_per_minute: None,
    }
}

fn set(s: &str) -> Option<EnvValue> {
    Some(EnvValue::Text(s.into()))
}

#[test]
fn environment_overrides_settings() {
    let env = EnvOverrides {
        bind: set("127.0.0.1:1"),
        name: set("pc"),
        enable_mdns: set("false"),
        transport: set("plaintext_legacy"),
        local_only: set("false"),
        max_connections: set("+7"),
        messages_per_minute: set("4294967295"),
        bytes_per_minute: set("0018446744073709551615"),
    };
    let c = apply_env(Config::default(), &env).unwrap();
    assert_eq!((c.bind.as_str(), c.name.as_str()), ("127.0.0.1:1", "pc"));
    assert!(!c.discovery.enable_mdns && !c.security.local_only);
    assert_eq!(c.security.transport, Transport::PlaintextLegacy);
    assert_eq!(
        c.limits,
        LimitsConfig {
            max_connections: 7,
            messages_per_minute: u32::MAX,
            bytes_per_minute: u64::MAX
        }
    );
    let c = apply_env(c, &no_env()).unwrap();
    assert_eq!(c.name, "pc");
    let tls = EnvOverrides { transport: set("tls"), ..no_env() };
    assert_eq!(apply_env(c, &tls).unwrap().security.transport, Transport::Tls);
}

#[test]
fn bad_environment_values_are_named() {
    let error = |env: EnvOverrides| apply_env(Config::default(), &env).unwrap_err().to_string();
    assert_eq!(
        error(EnvOverrides { bind: Some(EnvValue::NotUtf8), ..no_env() }),
        "config error: CLIPSYNC_BIND nao e UTF-8"
    );
    assert_eq!(
        error(EnvOverrides { name: Some(EnvValue::NotUtf8), ..no_env() }),
        "config error: CLIPSYNC_NAME nao e UTF-8"
    );
    assert_eq!(
        error(EnvOverrides { enable_mdns: set("True"), ..no_env() }),
        "config error: CLIPSYNC_DISCOVERY_ENABLE_MDNS tem valor invalido"
    );
    for t in [set("TLS"), Some(EnvValue::NotUtf8)] {
        assert_eq!(
            error(EnvOverrides { transport: t, ..no_env() }),
            "config error: CLIPSYNC_SECURITY_TRANSPORT deve ser tls ou plaintext_legacy"
        );
    }
    assert_eq!(
        error(EnvOverrides { local_only: Some(EnvValue::NotUtf8), ..no_env() }),
        "config error: CLIPSYNC_SECURITY_LOCAL_ONLY nao e UTF-8"
    );
    for n in ["", "-1", "1x", " 1", "+", "++1", "99999999999999999999999"] {
        assert_eq!(
            error(EnvOverrides { max_connections: set(n), ..no_env() }),
            "config error: CLIPSYNC_LIMITS_MAX_CONNECTIONS tem valor invalido"
        );
    }
    assert_eq!(
        error(EnvOverrides { messages_per_minute: set("4294967296"), ..no_env() }),
        "config error: CLIPSYNC_LIMITS_MESSAGES_PER_MINUTE tem valor invalido"
    );
    assert_eq!(
        error(EnvOverrides { bytes_per_minute: set("18446744073709551616"), ..no_env() }),
        "config error: CLIPSYNC_LIMITS_BYTES_PER_MINUTE tem valor invalido"
    );
}

#[test]
fn config_default_ok() {
    let cfg = Config::default();
    let sc = ServerConfig::from_config(&cfg);
    assert_eq!(sc.bind, "0.0.0.0:8765");
    assert_eq!(sc.name, "linux-desktop");
}

#[test]
fn port_comes_from_the_address() {
    let port = |bind: &str| {
        let mut c = ServerConfig::default();
        c.bind = bind.into();
        c.port()
    };
    assert_eq!(port("127.0.0.1:9000"), 9000);
    assert_eq!(port("[::1]:80"), 80);
    assert_eq!(port("1234"), 1234);
    assert_eq!(port("host:"), 8765);
    assert_eq!(port("host:65536"), 8765);
    assert_eq!(port("garbage"), 8765);
}

// Who may connect

#[test]
fn local_only_address_filter_is_explicit() {
    assert!(is_local_address(v4(127, 0, 0, 1)));
    assert!(is_local_address(v4(192, 168, 1, 10)));
    assert!(is_local_address(IpAddress::V6(0xfe80 << 112 | 1)));
    assert!(is_local_address(IpAddress::V6(0xfd00 << 112 | 1)));
    assert!(!is_local_address(v4(8, 8, 8, 8)));
    assert!(!is_local_address(IpAddress::V6(
        0x2001 << 112 | 0x4860 << 96 | 0x4860 << 80 | 0x8888
    )));
}

#[test]
fn local_ranges_end_where_they_should() {
    for ip in [
        v4(10, 0, 0, 0),
        v4(10, 255, 255, 255),
        v4(172, 16, 0, 0),
        v4(172, 31, 255, 255),
        v4(169, 254, 0, 1),
        IpAddress::V6(1),
        IpAddress::V6(0xfebf << 112),
        IpAddress::V6(0xfc00 << 112),
    ] {
        assert!(is_local_address(ip), "{ip:?}");
    }
    for ip in [
        v4(9, 255, 255, 255),
        v4(11, 0, 0, 0),
        v4(172, 15, 255, 255),
        v4(172, 32, 0, 0),
        v4(192, 169, 0, 0),
        v4(169, 253, 0, 0),
        v4(128, 0, 0, 0),
        IpAddress::V6(0),
        IpAddress::V6(2),
        IpAddress::V6(0xfec0 << 112),
        IpAddress::V6(0xfe00 << 112),
        IpAddress::V6(0xfbff << 112),
    ] {
        assert!(!is_local_address(ip), "{ip:?}");
    }
}

#[test]
fn windows_count_for_a_minute() {
    let mut a = Admission::new(LimitsConfig {
        max_connections: 0,
        messages_per_minute: 2,
        bytes_per_minute: 10,
    });
    let ip = v4(10, 0, 0, 1);
    let s: u128 = 1_000_000_000;
    assert!(a.allow_message_at(ip, 10, 0));
    assert!(!a.allow_message_at(ip, 1, s));
    assert!(a.allow_message_at(ip, 0, s));
    assert!(!a.allow_message_at(ip, 0, 59 * s));
    assert!(a.allow_message_at(v4(10, 0, 0, 2), 10, 59 * s));
    assert!(a.allow_message_at(IpAddress::V6(0x0a00_0001), 10, 59 * s));
    assert!(a.allow_message_at(ip, 10, 60 * s));
    assert!(!a.allow_message_at(ip, usize::MAX, 61 * s));
    let mut free = Admission::new(LimitsConfig {
        max_connections: 0,
        messages_per_minute: 0,
        bytes_per_minute: 0,
    });
    for _ in 0..1000 {
        assert!(free.allow_message(ip, usize::MAX));
    }
}

#[test]
fn requests_are_answered() {
    let mut a = Admission::new(LimitsConfig {
        max_connections: 1,
        messages_per_minute: 0,
        bytes_per_minute: 0,
    });
    let mut security = Config::default().security;
    assert_eq!(answer_request(&mut a, &security, v4(8, 8, 8, 8)), Entry::Remote);
    assert_eq!(a.active(), 0);
    assert_eq!(answer_request(&mut a, &security, v4(10, 0, 0, 1)), Entry::Open);
    assert_eq!(answer_request(&mut a, &security, v4(10, 0, 0, 1)), Entry::Full);
    a.release_connection();
    security.local_only = false;
    assert_eq!(answer_request(&mut a, &security, v4(8, 8, 8, 8)), Entry::Open);
    assert_eq!(refusal_answer(Entry::Open), None);
    assert_eq!(refusal_answer(Entry::Full), Some((503, "connection quota exceeded\n")));
    assert_eq!(refusal_answer(Entry::Remote), Some((403, "conexão remota bloqueada\n")));
    assert_eq!(ready_answer(false), (200, "clipsync daemon ready\n"));
    assert_eq!(ready_answer(true), (503, "clipsync daemon not ready\n"));
}

// Finding servers

#[test]
fn sanitize_handles_unicode_and_spaces() {
    assert_eq!(sanitize_instance("luis arch"), "luis-arch");
    assert_eq!(sanitize_instance("---"), "clipsync-host");
    assert_eq!(sanitize_instance("a"), "a");
}

#[test]
fn instances_keep_letters_and_fit() {
    assert_eq!(sanitize_instance(" João_1! "), "João_1");
    assert_eq!(sanitize_instance(""), "clipsync-host");
    assert_eq!(sanitize_instance(&"x".repeat(70)), "x".repeat(63));
    assert_eq!(sanitize_instance(&format!("{}é", "x".repeat(62))), "x".repeat(62));
    assert_eq!(sanitize_instance(&format!("{}éz", "x".repeat(61))), format!("{}é", "x".repeat(61)));
    assert_eq!(sanitize_instance(&"é".repeat(40)), "é".repeat(31));
    assert_eq!(sanitize_instance("a b"), "a-b");
}

#[test]
fn local_ip_v4_never_returns_loopback() {
    assert_eq!(announced_ip(v4(127, 0, 0, 1)), None);
    assert_eq!(announced_ip(v4(127, 255, 255, 255)), None);
    assert_eq!(announced_ip(v4(192, 168, 0, 1)), Some(0xc0a8_0001));
    assert_eq!(announced_ip(IpAddress::V6(5)), None);
    assert_eq!(dotted(0xc0a8_000a), "192.168.0.10");
}

#[test]
fn announcements_hold_the_documented_keys() {
    let p = txt_properties("pc", 8765, 0x0a00_0001, &DeviceId::from("id"), Some("ff"), "0.1.0");
    let get = |k: &str| p.iter().find(|e| e.0 == k).map(|e| e.1.as_str());
    assert_eq!(get("name"), Some("pc"));
    assert_eq!(get("protocol"), Some("v1"));
    assert_eq!(get("port"), Some("8765"));
    assert_eq!(get("host"), Some("10.0.0.1"));
    assert_eq!(get("server_id"), Some("id"));
    assert_eq!(get("tls"), Some("1"));
    assert_eq!(get("tls_fingerprint"), Some("ff"));
    assert_eq!(get("version"), Some("0.1.0"));
    let p = txt_properties("pc", 1, 1, &DeviceId::from("id"), None, "0");
    assert!(p.iter().all(|e| e.0 != "tls_fingerprint" && e.0 != "tls"));
}

fn service(fullname: &str, instance: &str) -> DiscoveredService {
    DiscoveredService {
        fullname: fullname.into(),
        instance: instance.into(),
        port: 8765,
        addrs: vec![v4(192, 168, 1, 10)],
        properties: Default::default(),
    }
}

#[test]
fn discovered_service_socket_addrs() {
    let svc = service("test._clipsync._tcp.local.", "test");
    let addrs = svc.socket_addrs();
    assert_eq!(addrs.len(), 1);
    assert_eq!(addrs[0].port, 8765);
    assert_eq!(addrs[0], SocketAddress { ip: v4(192, 168, 1, 10), port: 8765 });
}

#[test]
fn searches_gather_and_settle() {
    let mut b = Browse::new(100, 1000, 50);
    assert_eq!(b.remaining(100), Some(1000));
    assert_eq!(b.remaining(1100), None);
    assert!(b.take(BrowseEvent::Resolved(service("b.", "zeta")), 110));
    assert!(b.take(BrowseEvent::Resolved(service("a.", "alfa")), 120));
    assert!(b.take(BrowseEvent::Resolved(service("c.", "beta")), 130));
    assert!(b.take(BrowseEvent::Removed("c.".into()), 140));
    assert!(b.take(BrowseEvent::Other, 189));
    assert!(!b.take(BrowseEvent::Other, 190));
    let names: Vec<_> = b.finish().into_iter().map(|s| s.instance).collect();
    assert_eq!(names, vec!["alfa", "zeta"]);
    assert_eq!(host_instance("pc.local."), "pc");
    assert_eq!(host_instance("pc.local.local."), "pc.local.local.".trim_end_matches(".local."));
    assert_eq!(host_instance(".local..local."), "");
    assert_eq!(host_instance("pc.lan"), "pc.lan");
    assert_eq!(host_instance(""), "");
}

// Certificates

#[test]
fn fingerprints_are_compared_without_punctuation() {
    let f = fingerprint(b"abc");
    assert_eq!(f, "ba7816bf8f01cfea414140de5dae2223b00361a396177a9cb410ff61f20015ad");
    assert_eq!(normalize_fingerprint(" BA:78-xyz16 "), "ba7816");
    assert!(pin_matches(b"abc", &f));
    assert!(!pin_matches(b"abd", &f));
    assert!(needs_generation(true, false) && needs_generation(false, true));
    assert!(!needs_generation(true, true));
}

#[test]
fn identity_round_trip_and_pin_failure() {
    let first = Identity::from_parts(b"cert".to_vec(), b"key".to_vec(), &None).unwrap();
    let second = Identity::from_parts(b"cert".to_vec(), b"key".to_vec(), &None).unwrap();
    assert_eq!(first.fingerprint, second.fingerprint);
    let upper = first.fingerprint.to_uppercase();
    assert!(Identity::from_parts(b"cert".to_vec(), b"key".to_vec(), &Some(upper)).is_ok());
    assert_eq!(
        Identity::from_parts(b"cert".to_vec(), b"key".to_vec(), &Some("00".repeat(32))).unwrap_err(),
        Error::Config("fingerprint TLS local não corresponde à configuração".into())
    );
    assert_eq!(
        Identity::from_parts(vec![], b"key".to_vec(), &None).unwrap_err(),
        Error::Config("identidade TLS vazia".into())
    );
}

// Outbound connections

fn endpoint(name: &str, scope: EndpointScope) -> EndpointConfig {
    EndpointConfig {
        name: name.into(),
        url: format!("wss://{name}/ws"),
        transport: Transport::Tls,
        tls_fingerprint: Some("a".repeat(64)),
        credential_ref: Some("TOKEN".into()),
        scope,
    }
}

#[test]
fn auto_prefers_lan_before_relay() {
    let config = Config {
        endpoints: vec![
            EndpointConfig {
                name: "relay".into(),
                url: "wss://relay/ws".into(),
                transport: Transport::Tls,
                tls_fingerprint: Some("a".repeat(64)),
                credential_ref: Some("TOKEN".into()),
                scope: EndpointScope::Relay,
            },
            EndpointConfig {
                name: "lan".into(),
                url: "wss://lan/ws".into(),
                transport: Transport::Tls,
                tls_fingerprint: Some("b".repeat(64)),
                credential_ref: None,
                scope: EndpointScope::Lan,
            },
        ],
        ..Config::default()
    };
    assert_eq!(ordered_endpoints(&config)[0].scope, EndpointScope::Lan);
}

#[test]
fn routes_select_and_keep_order() {
    let mut config = Config {
        endpoints: vec![
            endpoint("r1", EndpointScope::Relay),
            endpoint("l1", EndpointScope::Lan),
            endpoint("r2", EndpointScope::Relay),
            endpoint("l2", EndpointScope::Lan),
        ],
        ..Config::default()
    };
    let names = |c: &Config| -> Vec<String> {
        ordered_endpoints(c).into_iter().map(|e| e.name).collect()
    };
    assert_eq!(names(&config), vec!["l1", "l2", "r1", "r2"]);
    config.security.outbound_route = OutboundRoute::Lan;
    assert_eq!(names(&config), vec!["l1", "l2"]);
    config.security.outbound_route = OutboundRoute::Relay;
    assert_eq!(names(&config), vec!["r1", "r2"]);
}

#[test]
fn connections_are_planned() {
    let mut e = endpoint("relay.example", EndpointScope::Relay);
    e.tls_fingerprint = Some("AB:cd".into());
    let plan = plan_connection(&e).unwrap();
    assert_eq!((plan.host.as_str(), plan.port), ("relay.example", 443));
    assert!(plan.needs_bearer);
    assert_eq!(plan.pin.as_deref(), Some("abcd"));
    e.url = "wss://relay.example:9443/ws".into();
    assert_eq!(plan_connection(&e).unwrap().port, 9443);
    let mut lan = endpoint("10.0.0.5", EndpointScope::Lan);
    lan.transport = Transport::PlaintextLegacy;
    lan.url = "ws://10.0.0.5/ws".into();
    let plan = plan_connection(&lan).unwrap();
    assert_eq!((plan.host.as_str(), plan.port, plan.needs_bearer), ("10.0.0.5", 80, false));
    assert!(plan.pin.is_none());
    assert_eq!(normalize_pin("A:B:c"), "abc");
}

#[test]
fn bad_endpoints_are_refused() {
    let error = |f: &dyn Fn(&mut EndpointConfig)| {
        let mut e = endpoint("r", EndpointScope::Relay);
        f(&mut e);
        plan_connection(&e).unwrap_err()
    };
    assert_eq!(error(&|e| e.transport = Transport::PlaintextLegacy), "config error: endpoint relay exige TLS");
    assert_eq!(error(&|e| e.url = "ws://r/ws".into()), "config error: endpoint TLS exige URL wss://");
    assert_eq!(error(&|e| e.tls_fingerprint = None), "config error: TLS outbound exige pin SHA-256");
    assert_eq!(error(&|e| e.credential_ref = None), "config error: credential_ref ausente");
    assert!(error(&|e| e.url = "wss://".into()).starts_with("URL inválida: "));
    let mut lan = endpoint("l", EndpointScope::Lan);
    lan.transport = Transport::PlaintextLegacy;
    assert_eq!(
        plan_connection(&lan).unwrap_err(),
        "config error: endpoint plaintext_legacy exige URL ws://"
    );
    assert_eq!(target(Err("x".into())), Err("URL inválida: x".into()));
    assert_eq!(target(Ok(UrlParts { host: None, port: Some(1) })), Err("endpoint sem host".into()));
    assert_eq!(
        target(Ok(UrlParts { host: Some("h".into()), port: None })),
        Err("endpoint sem porta".into())
    );
    assert_eq!(target(Ok(UrlParts { host: Some("h".into()), port: Some(1) })), Ok(("h".into(), 1)));
}

#[test]
fn credentials_are_found() {
    let mut e = endpoint("r", EndpointScope::Relay);
    assert_eq!(credential(&e), Ok(CredentialSource::Env("TOKEN".into())));
    e.credential_ref = Some("file:/etc/t".into());
    assert_eq!(credential(&e), Ok(CredentialSource::File("/etc/t".into())));
    e.credential_ref = None;
    assert_eq!(credential(&e), Err("credential_ref ausente".into()));
    assert_eq!(bearer_from_file(0o600, " tok\n"), Ok("tok".into()));
    assert_eq!(bearer_from_file(0o644, "tok"), Err("arquivo bearer deve ter modo 0600".into()));
    assert_eq!(bearer_header("tok"), "Bearer tok");
}

#[test]
fn outbound_sessions_step() {
    let cfg = ClipboardConfig::default();
    match outbound_hello(&DeviceId::from("me"), "pc", &cfg, "clipsyncd 0.1.0") {
        Message::Hello { v, device } => {
            assert_eq!(v, PROTOCOL_VERSION);
            assert_eq!(device.id, Some(DeviceId::from("me")));
            assert!(device.capabilities.text && device.capabilities.images);
            assert!(!device.capabilities.html);
        }
        other => panic!("unexpected {}", other.kind_name()),
    }
    match lan_handshake(&Message::Ping { ts: 3 }) {
        LanStep::Reply(Message::Pong { ts }) => assert_eq!(ts, 3),
        other => panic!("unexpected {other:?}"),
    }
    match lan_handshake(&Message::Pong { ts: 3 }) {
        LanStep::Failed(e) => assert_eq!(e, "handshake LAN inesperado: pong"),
        other => panic!("unexpected {other:?}"),
    }
    assert!(matches!(lan_handshake(&pair_ok("x")), LanStep::Ready));
    let failure = |item: Incoming| match session_step(item) {
        OutboundStep::Failed(e) => e,
        other => panic!("unexpected {other:?}"),
    };
    assert_eq!(failure(Incoming::Ended), "peer fechou conexão");
    assert_eq!(failure(Incoming::Frame(Frame::Close)), "peer fechou conexão");
    assert_eq!(failure(Incoming::Failed("e".into())), "e");
    assert_eq!(failure(garbage()), "bad");
    assert!(matches!(session_step(text(Message::Ping { ts: 1 })), OutboundStep::Reply(_)));
    assert!(matches!(session_step(text(Message::Pong { ts: 1 })), OutboundStep::Nothing));
    assert!(matches!(session_step(text(pair_ok("x"))), OutboundStep::Nothing));
    assert!(matches!(
        session_step(text(share_text("x", &DeviceId::from("o")))),
        OutboundStep::Event(_)
    ));
    assert!(matches!(session_step(Incoming::Frame(Frame::Ping { size: 1 })), OutboundStep::Pong));
    assert!(matches!(
        session_step(Incoming::Frame(Frame::Binary { size: 1 })),
        OutboundStep::Nothing
    ));
}

#[test]
fn servers_are_tried_in_turn() {
    assert!(OutboundManager::new(0).is_none());
    let mut f = OutboundManager::new(2).unwrap();
    assert_eq!(f.index, 0);
    assert!(!f.advance(false));
    assert_eq!(f.index, 1);
    assert!(f.advance(false), "a whole round failed");
    assert_eq!(f.index, 0);
    assert!(!f.advance(true));
    assert_eq!(f.index, 1, "a drop moves on to the next server");
    assert!(!f.advance(false));
    assert_eq!(f.index, 0);
}

// The client's side

fn pair_ok(id: &str) -> Message {
    Message::PairOk {
        device_id: DeviceId::from(id),
        server_id: None,
        session_id: "s".into(),
        server_name: "n".into(),
        capabilities: Capabilities::default(),
    }
}

fn pair_challenge() -> Message {
    Message::PairChallenge { challenge_id: "c".into(), expires_at: 9, nonce: "n".into() }
}

fn pair_fail() -> Message {
    Message::PairFail { reason: PairFailReason::Expired, message: "tarde".into() }
}

#[test]
fn clients_say_who_they_are() {
    match hello("desk", DeviceKind::Macos, "clipsync-client 1") {
        Message::Hello { v, device } => {
            assert_eq!(v, PROTOCOL_VERSION);
            assert!(device.id.is_none() && device.capabilities.text);
            assert!(!device.capabilities.images);
        }
        other => panic!("unexpected {}", other.kind_name()),
    }
    assert_eq!(device_kind("macos"), DeviceKind::Macos);
    assert_eq!(device_kind("windows"), DeviceKind::Windows);
    assert_eq!(device_kind("linux"), DeviceKind::Other);
    assert_eq!(resolve_url(Some("a".into()), Some("b".into())), "a");
    assert_eq!(resolve_url(None, Some("b".into())), "b");
    assert_eq!(resolve_url(None, None), "ws://127.0.0.1:8765/ws");
    assert_eq!(typed_pin(Some(" 1 ".into()), ""), Some(" 1 ".into()));
    assert_eq!(typed_pin(None, " 123456\n"), Some("123456".into()));
    assert_eq!(typed_pin(None, " \n"), None);
}

#[test]
fn handshakes_run_to_their_end() {
    for style in [Style::Desktop, Style::Reference] {
        let mut h = Handshake::new(style);
        assert!(matches!(h.take(Incoming::Frame(Frame::Pong { size: 1 })), HandshakeStep::Wait));
        assert!(matches!(h.take(Incoming::Frame(Frame::Ping { size: 1 })), HandshakeStep::Pong));
        assert!(h.submit("123456").is_none());
        assert!(matches!(
            h.take(text(pair_challenge())),
            HandshakeStep::NeedPin { expires_at: 9 }
        ));
        match h.submit("123456") {
            Some(Message::PairSubmit { challenge_id, code, nonce }) => {
                assert_eq!((challenge_id, code, nonce), ("c".into(), "123456".into(), "n".into()))
            }
            other => panic!("unexpected {other:?}"),
        }
        match h.take(text(pair_ok("me"))) {
            HandshakeStep::Paired(id) => assert_eq!(id, DeviceId::from("me")),
            other => panic!("unexpected {other:?}"),
        }
        assert!(matches!(h.phase, HandshakePhase::Paired(_)));
        assert!(matches!(h.take(text(pair_fail())), HandshakeStep::Wait));
    }
    let mut known = Handshake::new(Style::Desktop);
    assert!(matches!(known.take(text(pair_ok("me"))), HandshakeStep::Paired(_)));
}

#[test]
fn handshakes_end_with_a_reason() {
    let reason = |style: Style, submitted: bool, item: Incoming| {
        let mut h = Handshake::new(style);
        if submitted {
            let _ = h.take(text(pair_challenge()));
            let _ = h.submit("1");
        }
        match h.take(item) {
            HandshakeStep::Failed(e) => {
                assert!(matches!(h.phase, HandshakePhase::Failed));
                e
            }
            other => panic!("unexpected {other:?}"),
        }
    };
    let ping = || text(Message::Ping { ts: 1 });
    assert_eq!(reason(Style::Desktop, false, ping()), "esperava desafio, recebi ping");
    assert_eq!(reason(Style::Desktop, true, ping()), "esperava pair_ok, recebi ping");
    assert_eq!(reason(Style::Desktop, true, text(pair_fail())), "pareamento expired: tarde");
    assert_eq!(reason(Style::Desktop, false, Incoming::Ended), "conexão fechada");
    assert_eq!(
        reason(Style::Reference, false, text(pair_ok("x"))),
        "Falha em pair_challenge: recebeu pair_ok"
    );
    assert_eq!(reason(Style::Reference, true, ping()), "Falha em pair_ok: recebeu ping");
    assert_eq!(
        reason(Style::Reference, true, text(pair_fail())),
        "Pareamento falhou (expired): tarde"
    );
    assert_eq!(
        reason(Style::Reference, true, Incoming::Ended),
        "Falha em pair_ok: conexão fechada pelo servidor"
    );
}

#[test]
fn waits_end_in_a_message_or_a_reason() {
    let reason = |item: Incoming, style: Style| match receive(item, style) {
        Wait::Failed(e) => e,
        other => panic!("unexpected {other:?}"),
    };
    assert_eq!(reason(Incoming::Ended, Style::Desktop), "conexão fechada");
    assert_eq!(reason(Incoming::Failed("e".into()), Style::Desktop), "e");
    assert_eq!(
        reason(Incoming::Frame(Frame::Close), Style::Desktop),
        "conexão fechada durante handshake"
    );
    assert_eq!(reason(Incoming::Frame(Frame::Binary { size: 1 }), Style::Desktop), "frame inesperado");
    assert_eq!(reason(garbage(), Style::Reference), "JSON inválido do servidor: bad");
    assert_eq!(reason(Incoming::Failed("e".into()), Style::Reference), "erro de websocket: e");
    assert_eq!(
        reason(Incoming::Frame(Frame::Close), Style::Reference),
        "conexão fechada pelo servidor"
    );
    assert_eq!(reason(Incoming::Frame(Frame::Close), Style::Daemon), "conexão fechada");
    assert_eq!(
        reason(Incoming::Frame(Frame::Binary { size: 1 }), Style::Daemon),
        "frame binário inesperado"
    );
    assert_eq!(reason(garbage(), Style::Daemon), "bad");
    assert!(matches!(
        receive(text(Message::Ping { ts: 1 }), Style::Desktop),
        Wait::Message(Message::Ping { ts: 1 })
    ));
    assert!(matches!(
        receive(Incoming::Frame(Frame::Ping { size: 1 }), Style::Desktop),
        Wait::Pong
    ));
    assert!(matches!(
        receive(Incoming::Frame(Frame::Pong { size: 1 }), Style::Desktop),
        Wait::Again
    ));
}

#[test]
fn text_is_sent_once_and_not_sent_back() {
    let mut s = TextSync::new(DeviceId::from("me"), Some("inicial"));
    assert!(s.on_tick(Some("inicial")).is_none());
    assert!(s.on_tick(None).is_none());
    match s.on_tick(Some("novo")) {
        Some(Message::ClipboardText { mime, content, origin, sha256 }) => {
            assert_eq!(mime, MIME_TEXT);
            assert_eq!(content, "novo");
            assert_eq!(origin, DeviceId::from("me"));
            assert_eq!(sha256, sha256_hex(b"novo"));
        }
        other => panic!("unexpected {other:?}"),
    }
    assert!(s.on_tick(Some("novo")).is_none());
    match s.on_incoming(text(share_text("de fora", &DeviceId::from("other")))) {
        SyncAction::SetText(t) => assert_eq!(t, "de fora"),
        other => panic!("unexpected {other:?}"),
    }
    assert!(s.on_tick(Some("de fora")).is_none());
    assert!(matches!(s.on_incoming(text(Message::Ping { ts: 1 })), SyncAction::Reply(_)));
    let error = |code: &str| {
        text(Message::Error { code: code.into(), message: "m".into() })
    };
    assert!(matches!(s.on_incoming(error("superseded")), SyncAction::Failed(e) if e == "m"));
    assert!(matches!(s.on_incoming(error("other")), SyncAction::Nothing));
    assert!(matches!(s.on_incoming(Incoming::Ended), SyncAction::Stop));
    assert!(matches!(s.on_incoming(Incoming::Frame(Frame::Close)), SyncAction::Stop));
    assert!(matches!(s.on_incoming(Incoming::Frame(Frame::Ping { size: 1 })), SyncAction::Pong));
    assert!(matches!(s.on_incoming(garbage()), SyncAction::Failed(e) if e == "JSON inválido: bad"));
    assert!(matches!(
        s.on_incoming(Incoming::Failed("e".into())),
        SyncAction::Failed(e) if e == "websocket: e"
    ));
    assert!(TextSync::new(DeviceId::from("me"), None).on_tick(Some("x")).is_some());
}

#[test]
fn reference_client_prints_what_comes() {
    let printed = |item: Incoming| match echo(item) {
        EchoAction::Print(t) => t,
        other => panic!("unexpected {other:?}"),
    };
    assert_eq!(
        printed(text(share_text("oi", &DeviceId::from("x")))),
        "RECV [text/plain;charset=utf-8] oi"
    );
    assert_eq!(printed(text(pair_ok("x"))), "RECV pair_ok");
    assert_eq!(printed(Incoming::Frame(Frame::Binary { size: 1 })), "RECV <binário>");
    assert!(matches!(echo(text(Message::Ping { ts: 1 })), EchoAction::Reply(_)));
    assert!(matches!(echo(garbage()), EchoAction::Complain(e) if e == "JSON inválido recebido: bad"));
    assert!(matches!(
        echo(Incoming::Frame(Frame::Close)),
        EchoAction::Leave(t) if t == "Servidor fechou a conexão"
    ));
    assert!(matches!(echo(Incoming::Ended), EchoAction::Quit));
    assert!(matches!(
        echo(Incoming::Failed("e".into())),
        EchoAction::Abort(e) if e == "Erro de websocket: e"
    ));
    assert!(matches!(echo(Incoming::Frame(Frame::Ping { size: 1 })), EchoAction::Pong));
    assert!(matches!(echo(Incoming::Frame(Frame::Pong { size: 1 })), EchoAction::Nothing));
}

// The tray

#[test]
fn status_label_with_pin() {
    let s = TrayStatus { peer_count: 2, pin: Some("123456".into()), state: DaemonState::Running };
    assert!(s.status_label().contains("2 peer(s)"));
    assert!(s.status_label().contains("123456"));
    assert!(s.status_label().contains("rodando"));
    assert_eq!(s.status_label(), "2 peer(s) conectado(s) · estado: rodando · PIN: 123456");
}

#[test]
fn status_label_without_pin() {
    let s = TrayStatus { peer_count: 0, pin: None, state: DaemonState::Idle };
    assert!(s.status_label().contains("PIN: nenhum"));
    assert!(s.status_label().contains("0 peer(s)"));
}

#[test]
fn tooltip_description_contains_summary() {
    let s = TrayStatus { peer_count: 1, pin: Some("999999".into()), state: DaemonState::Running };
    let tip = s.tooltip_description();
    assert!(tip.starts_with("clipsyncd\n"));
    assert!(tip.contains("999999"));
}

#[test]
fn daemon_state_display() {
    assert_eq!(DaemonState::Running.to_string(), "rodando");
    assert_eq!(DaemonState::Idle.to_string(), "ocioso");
    assert_eq!(DaemonState::Error.to_string(), "erro");
}

#[test]
fn daemon_state_default_is_idle() {
    assert_eq!(DaemonState::default(), DaemonState::Idle);
    assert_eq!(TrayStatus::default().state, DaemonState::Idle);
}

#[test]
fn tray_command_variants() {
    assert_eq!(TrayCommand::ShowPin, TrayCommand::ShowPin);
    assert_ne!(TrayCommand::ShowPin, TrayCommand::Quit);
}

#[test]
fn tray_shows_the_servers_state() {
    let mut state = ServerState::new(ServerConfig::default(), TrustedStore::default());
    let addr = SocketAddress { ip: v4(10, 0, 0, 1), port: 1 };
    state.add_peer(addr, &DeviceId::from("z"), "zeta", "s1");
    state.add_peer(addr, &DeviceId::from("a"), "alfa", "s2");
    let s = status_of(&state);
    assert_eq!((s.peer_count, s.pin, s.state), (2, None, DaemonState::Running));
    assert!(matches!(
        on_command(TrayCommand::ShowPin, &state),
        TrayAction::ShowPin(body) if body == "Nenhum PIN ativo"
    ));
    let ch = state.pairing.start_challenge("s", "d", 120);
    assert_eq!(status_of(&state).pin, Some(ch.code.clone()));
    assert_eq!(status_at(&state, ch.expires_at - 1).pin, Some(ch.code.clone()));
    assert_eq!(status_at(&state, ch.expires_at).pin, None);
    assert!(matches!(
        on_command_at(TrayCommand::ShowPin, &state, ch.expires_at - 1),
        TrayAction::ShowPin(body) if body == ch.code
    ));
    assert!(matches!(
        on_command_at(TrayCommand::ShowPin, &state, ch.expires_at),
        TrayAction::ShowPin(body) if body == "Nenhum PIN ativo"
    ));
    assert!(matches!(
        on_command(TrayCommand::ShowPin, &state),
        TrayAction::ShowPin(body) if body == ch.code
    ));
    match on_command(TrayCommand::ListPeers, &state) {
        TrayAction::ShowPeers { notice, peers } => {
            assert_eq!(notice, "2 peer(s) conectado(s)");
            let names: Vec<_> = peers.iter().map(|p| p.name.as_str()).collect();
            assert_eq!(names, vec!["alfa", "zeta"]);
        }
        other => panic!("unexpected {other:?}"),
    }
    assert!(matches!(on_command(TrayCommand::Quit, &state), TrayAction::Quit));
}

#[test]
fn daemon_starts_what_is_configured() {
    let mut config = Config::default();
    let server = ServerConfig::from_config(&config);
    assert_eq!(
        startup_plan(&config, &server, false),
        StartupPlan { announce: true, tls: true, tray: true, port: 8765, poll_interval_ms: 250 }
    );
    config.discovery.enable_mdns = false;
    config.security.transport = Transport::PlaintextLegacy;
    config.bind = "0.0.0.0:1".into();
    let server = ServerConfig::from_config(&config);
    assert_eq!(
        startup_plan(&config, &server, true),
        StartupPlan { announce: false, tls: false, tray: false, port: 1, poll_interval_ms: 250 }
    );
}

#[test]
fn local_changes_go_to_every_peer() {
    let mut state = ServerState::new(ServerConfig::default(), TrustedStore::default());
    let addr = SocketAddress { ip: v4(10, 0, 0, 1), port: 1 };
    state.add_peer(addr, &DeviceId::from("a"), "a", "sa");
    state.add_peer(addr, &DeviceId::from("b"), "b", "sb");
    let changed = |mime: &str| {
        ClipboardEvent::Changed(Box::new(ClipboardManager::snapshot(mime, b"oi".to_vec())))
    };
    match on_local_event(&state, changed(MIME_TEXT)) {
        LocalAction::Broadcast { message: Message::ClipboardText { origin, .. }, recipients } => {
            assert_eq!(origin, state.config.device_id);
            assert_eq!(recipients.len(), 2);
        }
        other => panic!("unexpected {other:?}"),
    }
    assert!(matches!(on_local_event(&state, changed("application/x")), LocalAction::Nothing));
    assert!(matches!(
        on_local_event(&state, ClipboardEvent::BackendLost("x".into())),
        LocalAction::Warn(w) if w == "x"
    ));
}

#[test]
fn temporary_files_have_names_of_their_own() {
    assert_eq!(temporary_name_for(Some("config.toml"), "id"), ".config.toml.id.tmp");
    assert_eq!(temporary_name_for(None, "id"), ".clipsync.id.tmp");
    let a = temporary_name(Some("x"));
    assert!(a.starts_with(".x.") && a.ends_with(".tmp") && a.len() == 3 + 36 + 4);
    assert_ne!(a, temporary_name(Some("x")));
    assert_eq!(next_attempt(Attempt::Created, 1), NextAttempt::Use);
    assert_eq!(next_attempt(Attempt::Taken, 15), NextAttempt::TryAgain);
    assert_eq!(next_attempt(Attempt::Taken, 16), NextAttempt::Exhausted);
    assert_eq!(next_attempt(Attempt::Failed, 1), NextAttempt::Fail);
    assert_eq!(exhausted_text(), "não foi possível reservar arquivo temporário");
}

#[test]
fn found_servers_are_described() {
    let mut s = service("a.", "alfa");
    s.properties = vec![
        ("b".into(), "2".into()),
        ("a".into(), "9".into()),
        ("a".into(), "1".into()),
    ];
    assert_eq!(
        service_lines(&s, &vec!["192.168.1.10".into(), "fe80::1".into()]),
        vec![
            "  alfa",
            "    Endereços: 192.168.1.10, fe80::1",
            "    Porta: 8765",
            "    a: 1",
            "    a: 9",
            "    b: 2",
        ]
    );
    assert_eq!(service_lines(&service("b.", "b"), &vec![])[1], "    Endereços: ");
}

#[test]
fn notices_say_what_there_is() {
    assert_eq!(pin_notice(&Some("123456".into())), "123456");
    assert_eq!(pin_notice(&None), "Nenhum PIN ativo");
    assert_eq!(peers_notice(3), "3 peer(s) conectado(s)");
}

#[test]
fn endpoints_are_added_once_and_removed() {
    let mut config = Config {
        endpoints: vec![endpoint("a", EndpointScope::Lan)],
        ..Config::default()
    };
    config.add_endpoint(endpoint("b", EndpointScope::Relay)).unwrap();
    assert_eq!(config.endpoints.len(), 2);
    assert_eq!(config.endpoint("b").unwrap().scope, EndpointScope::Relay);
    assert!(config.endpoint("c").is_none());

    let taken = config.add_endpoint(endpoint("a", EndpointScope::Lan)).unwrap_err();
    assert!(matches!(taken, Error::Config(text) if text == "endpoint já existe: a"));
    let mut unpinned = endpoint("c", EndpointScope::Lan);
    unpinned.transport = Transport::Tls;
    unpinned.url = "wss://host/ws".into();
    unpinned.tls_fingerprint = None;
    let refused = config.add_endpoint(unpinned).unwrap_err();
    assert!(matches!(refused, Error::Config(text) if text == "TLS outbound exige pin SHA-256"));
    assert_eq!(config.endpoints.len(), 2);

    assert!(config.remove_endpoint("b"));
    assert!(!config.remove_endpoint("b"));
    assert_eq!(config.endpoints.len(), 1);
    assert_eq!(config.endpoints[0].name, "a");
}

#[test]
fn preferred_backend_needs_its_display() {
    let kind = |preference: &str, wayland: bool, x11: bool| {
        ClipboardManager::preferring(preference, wayland, x11).backend_kind()
    };
    assert_eq!(kind("auto", true, true), BackendKind::Wayland);
    assert_eq!(kind("wayland", true, true), BackendKind::Wayland);
    assert_eq!(kind("x11", true, true), BackendKind::X11);
    assert_eq!(kind("x11", true, false), BackendKind::Wayland);
    assert_eq!(kind("wayland", false, true), BackendKind::X11);
    assert_eq!(kind("x11", false, false), BackendKind::Headless);
}

#[test]
fn service_type_ends_in_a_dot() {
    assert_eq!(full_type("_clipsync._tcp.local"), "_clipsync._tcp.local.");
    assert_eq!(full_type("_clipsync._tcp.local."), "_clipsync._tcp.local.");
    assert_eq!(full_type(""), ".");
}

#[test]
fn generated_identities_are_whole_and_differ() {
    assert_eq!(certificate_names(), vec!["localhost"]);
    let (cert, key) = generate().unwrap();
    let (other, _) = generate().unwrap();
    assert_ne!(cert, other);
    let identity = Identity::from_parts(cert.clone(), key, &None).unwrap();
    assert_eq!(identity.fingerprint, fingerprint(&cert));
    assert_eq!(cert[0], 0x30);
    assert!(cert.windows(9).any(|w| w == b"localhost"));
    assert_eq!(
        generated(Err("why".into())).unwrap_err(),
        Error::Config("falha gerando certificado TLS: why".into())
    );
}

#[test]
fn message_names_differ() {
    let id = DeviceId::from("d");
    let all = [
        Message::Hello { v: 1, device: DeviceInfo::new("n", DeviceKind::Linux) }.kind_name(),
        share_text("x", &id).kind_name(),
        Message::Ping { ts: 0 }.kind_name(),
        Message::Pong { ts: 0 }.kind_name(),
        Message::Error { code: "c".into(), message: "m".into() }.kind_name(),
    ];
    assert_eq!(all, ["hello", "clipboard_text", "ping", "pong", "error"]);
}
