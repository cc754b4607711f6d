use aes_gcm::aead::{Aead, KeyInit, Payload};
use base64::Engine;
use clipsync::auth::{GroupId, SessionId};
use clipsync::protocol::DeviceId;
use clipsync::relay_crypto::{
    aad, is_owner_only, key_source, load_key_material, load_key_ring, parse_key_line, validate_key_id,
    EncryptedRelayPayload, KeySource, OutboundEnvelope, RelayCryptoError, RelayHeader, RelayKeyRing,
};
use serde_json::Value;

fn header<'a>(key_id: &'a str, sequence: u64) -> RelayHeader<'a> {
    RelayHeader {
        session_id: "session",
        source: "source",
        destination: Some("target"),
        group: "group",
        sequence,
        key_id,
    }
}

fn message() -> Vec<u8> {
    let mut m = serde_json::Map::new();
    m.insert("type".into(), Value::from("clipboard_text"));
    m.insert("mime".into(), Value::from("text/plain"));
    m.insert("content".into(), Value::from("secret"));
    m.insert("origin".into(), Value::from("source"));
    m.insert("sha256".into(), Value::from("hash"));
    serde_json::to_vec(&Value::Object(m)).unwrap()
}

fn message_type(plaintext: &[u8]) -> String {
    let v: Value = serde_json::from_slice(plaintext).unwrap();
    v["type"].as_str().unwrap().to_owned()
}

#[test]
fn round_trip_and_wrong_key() {
    let ring = RelayKeyRing::new("v1", [7; 32]).unwrap();
    let encrypted = ring.encrypt(&header("v1", 1), &message()).unwrap();
    assert_eq!(
        message_type(&ring.decrypt(&header("v1", 1), &encrypted).unwrap()),
        "clipboard_text"
    );
    let wrong = RelayKeyRing::new("v1", [8; 32]).unwrap();
    assert!(matches!(
        wrong.decrypt(&header("v1", 1), &encrypted),
        Err(RelayCryptoError::Authentication)
    ));
}

#[test]
fn tamper_and_replay_bound_header_fail() {
    let ring = RelayKeyRing::new("v1", [7; 32]).unwrap();
    let mut encrypted = ring.encrypt(&header("v1", 1), &message()).unwrap();
    let first = if encrypted.ciphertext.starts_with('A') { "B" } else { "A" };
    encrypted.ciphertext.replace_range(0..1, first);
    assert!(ring.decrypt(&header("v1", 1), &encrypted).is_err());
    let encrypted = ring.encrypt(&header("v1", 1), &message()).unwrap();
    assert!(ring.decrypt(&header("v1", 2), &encrypted).is_err());
}

#[test]
fn rotation_retains_previous_key_and_uses_new_key() {
    let mut ring = RelayKeyRing::new("v1", [7; 32]).unwrap();
    let old = ring.encrypt(&header("v1", 1), &message()).unwrap();
    ring.rotate("v2", [8; 32]).unwrap();
    assert!(ring.decrypt(&header("v1", 1), &old).is_ok());
    let new = ring.encrypt(&header("v2", 2), &message()).unwrap();
    assert_eq!(new.key_id, "v2");
    assert_eq!(ring.current_key_id(), "v2");
}

#[test]
fn envelope_wire_round_trip_and_header_tamper_fail() {
    let ring = RelayKeyRing::new("v1", [7; 32]).unwrap();
    let session = SessionId::from_string("session").unwrap();
    let source = DeviceId::from("source");
    let group = GroupId::from_string("group").unwrap();
    let payload = ring
        .encrypt(
            &RelayHeader {
                session_id: "session",
                source: "source",
                destination: None,
                group: "group",
                sequence: 9,
                key_id: "v1",
            },
            &message(),
        )
        .unwrap();
    let envelope = OutboundEnvelope {
        kind: "relay_envelope".into(),
        session_id: session,
        source,
        destination: None,
        group,
        sequence: 9,
        payload,
    };
    let mut wire = serde_json::Map::new();
    wire.insert("type".into(), Value::from(envelope.kind.clone()));
    wire.insert("session_id".into(), Value::from(envelope.session_id.as_str()));
    wire.insert("source".into(), Value::from(envelope.source.as_str()));
    wire.insert("group".into(), Value::from(envelope.group.as_str()));
    wire.insert("sequence".into(), Value::from(envelope.sequence));
    let mut sealed = serde_json::Map::new();
    sealed.insert("key_id".into(), Value::from(envelope.payload.key_id.clone()));
    sealed.insert("nonce".into(), Value::from(envelope.payload.nonce.clone()));
    sealed.insert("ciphertext".into(), Value::from(envelope.payload.ciphertext.clone()));
    wire.insert("payload".into(), Value::Object(sealed));
    let text = serde_json::to_string(&Value::Object(wire)).unwrap();
    let v: Value = serde_json::from_str(&text).unwrap();
    let get = |v: &Value, k: &str| v[k].as_str().unwrap().to_owned();
    let decoded = OutboundEnvelope {
        kind: get(&v, "type"),
        session_id: SessionId::from_string(&get(&v, "session_id")).unwrap(),
        source: DeviceId::from(get(&v, "source")),
        destination: None,
        group: GroupId::from_string(&get(&v, "group")).unwrap(),
        sequence: v["sequence"].as_u64().unwrap(),
        payload: EncryptedRelayPayload {
            key_id: get(&v["payload"], "key_id"),
            nonce: get(&v["payload"], "nonce"),
            ciphertext: get(&v["payload"], "ciphertext"),
        },
    };
    assert_eq!(decoded, envelope.clone());
    assert_eq!(
        message_type(&ring.decrypt(&decoded.header(), &decoded.payload).unwrap()),
        "clipboard_text"
    );
    let mut tampered = decoded.header();
    tampered.sequence = 10;
    assert!(ring.decrypt(&tampered, &decoded.payload).is_err());
}

#[test]
fn sealing_is_aes_256_gcm() {
    let ring = RelayKeyRing::new("k", [0; 32]).unwrap();
    let sealed = ring.encrypt_with_nonce(&header("k", 1), b"plain", &[0; 12]).unwrap();
    assert_eq!(sealed.nonce, "000000000000000000000000");
    assert_eq!(sealed.key_id, "k");
    let bytes = base64::engine::general_purpose::STANDARD.decode(&sealed.ciphertext).unwrap();
    assert_eq!(bytes.len(), 5 + 16);
    assert_ne!(&bytes[..5], b"plain");
    let cipher = aes_gcm::Aes256Gcm::new_from_slice(&[0; 32]).unwrap();
    let bound = aad(&header("k", 1));
    let opened = cipher
        .decrypt(
            aes_gcm::Nonce::from_slice(&[0; 12]),
            Payload { msg: &bytes, aad: bound.as_bytes() },
        )
        .unwrap();
    assert_eq!(opened, b"plain");
    assert_eq!(ring.decrypt(&header("k", 1), &sealed).unwrap(), b"plain");
}

#[test]
fn nonces_are_fresh() {
    let ring = RelayKeyRing::new("k", [1; 32]).unwrap();
    let a = ring.encrypt(&header("k", 1), b"x").unwrap();
    let b = ring.encrypt(&header("k", 1), b"x").unwrap();
    assert_ne!(a.nonce, b.nonce);
    assert_ne!(a.ciphertext, b.ciphertext);
    assert_eq!(a.nonce.len(), 24);
}

#[test]
fn bad_fields_and_unknown_keys_are_told_apart() {
    let ring = RelayKeyRing::new("k", [1; 32]).unwrap();
    let good = ring.encrypt(&header("k", 1), b"x").unwrap();
    let with = |f: &dyn Fn(&mut EncryptedRelayPayload)| {
        let mut p = good.clone();
        f(&mut p);
        ring.decrypt(&header("k", 1), &p)
    };
    assert_eq!(with(&|p| p.key_id = "other".into()), Err(RelayCryptoError::UnknownKey));
    assert_eq!(with(&|p| p.nonce = "zz".into()), Err(RelayCryptoError::InvalidField));
    assert_eq!(with(&|p| p.nonce = "00".into()), Err(RelayCryptoError::InvalidField));
    assert_eq!(with(&|p| p.ciphertext = "!".into()), Err(RelayCryptoError::InvalidField));
    assert_eq!(with(&|p| p.ciphertext = "AAAA".into()), Err(RelayCryptoError::Authentication));
    assert_eq!(with(&|_| {}), Ok(b"x".to_vec()));
}

#[test]
fn bound_text_is_exact() {
    assert_eq!(
        aad(&header("v1", 42)),
        "clipsync-relay-v1\0session\0source\0target\0group\042\0v1"
    );
    let mut h = header("v1", 0);
    h.destination = None;
    assert_eq!(aad(&h), "clipsync-relay-v1\0session\0source\0\0group\00\0v1");
}

#[test]
fn key_ids_are_checked() {
    assert!(validate_key_id("a-Z_9").is_ok());
    assert!(validate_key_id(&"x".repeat(64)).is_ok());
    for bad in ["", "a b", "é", "a.b", &"x".repeat(65)] {
        assert_eq!(validate_key_id(bad), Err(RelayCryptoError::InvalidField), "{bad}");
    }
    assert!(matches!(RelayKeyRing::new("", [0; 32]), Err(RelayCryptoError::InvalidField)));
    let mut ring = RelayKeyRing::new("a", [0; 32]).unwrap();
    assert_eq!(ring.rotate("b c", [1; 32]), Err(RelayCryptoError::InvalidField));
    assert_eq!(ring.current_key_id(), "a");
}

#[test]
fn key_lines_are_parsed() {
    let key = "0a".repeat(32);
    let (id, group, bytes) = parse_key_line(&format!("  v1\tteam {key} ")).unwrap();
    assert_eq!((id.as_str(), group.as_str(), bytes), ("v1", "team", [10; 32]));
    let upper = "0A".repeat(32);
    assert_eq!(parse_key_line(&format!("v1 team {upper}")).unwrap().2, [10; 32]);
    for bad in ["", "v1 team", "v1 team 0a0a", "v1 team zz extra"] {
        assert_eq!(parse_key_line(bad), Err(RelayCryptoError::KeyMaterial), "{bad}");
    }
    assert_eq!(parse_key_line(&format!("v.1 team {key}")), Err(RelayCryptoError::InvalidField));
    assert_eq!(
        parse_key_line(&format!("v1 team {}g", "0a".repeat(31) + "0")),
        Err(RelayCryptoError::KeyMaterial)
    );
}

#[test]
fn key_files_make_rings() {
    let line = |id: &str, group: &str, b: &str| format!("{id} {group} {}", b.repeat(32));
    let text = format!("{}\r\n{}\n", line("v1", "g", "01"), line("v2", "g", "02"));
    let (ring, group) = load_key_ring(&text).unwrap();
    assert_eq!((ring.current_key_id(), group.as_str()), ("v2", "g"));
    let old = RelayKeyRing::new("v1", [1; 32]).unwrap();
    let sealed = old.encrypt(&header("v1", 1), b"m").unwrap();
    assert_eq!(ring.decrypt(&header("v1", 1), &sealed).unwrap(), b"m");
    assert_eq!(load_key_material(&text).unwrap().0, "v1");
    assert!(matches!(load_key_ring(""), Err(RelayCryptoError::KeyMaterial)));
    assert!(matches!(load_key_material(""), Err(RelayCryptoError::KeyMaterial)));
    let mixed = format!("{}\n{}\n", line("v1", "g", "01"), line("v2", "h", "02"));
    assert!(matches!(load_key_ring(&mixed), Err(RelayCryptoError::KeyMaterial)));
    let blank = format!("{}\n\n", line("v1", "g", "01"));
    assert!(matches!(load_key_ring(&blank), Err(RelayCryptoError::KeyMaterial)));
}

#[test]
fn key_references() {
    assert_eq!(key_source("env:NAME"), KeySource::Env("NAME".into()));
    assert_eq!(key_source("file:/a/b"), KeySource::File("/a/b".into()));
    assert_eq!(key_source("/a/b"), KeySource::File("/a/b".into()));
    assert!(is_owner_only(0o100600) && is_owner_only(0o400));
    assert!(!is_owner_only(0o640) && !is_owner_only(0o604) && !is_owner_only(0o601));
}

#[test]
fn crypto_errors_in_words() {
    assert_eq!(RelayCryptoError::InvalidField.to_string(), "invalid relay crypto field");
    assert_eq!(RelayCryptoError::UnknownKey.to_string(), "unknown relay key");
    assert_eq!(RelayCryptoError::Authentication.to_string(), "AEAD authentication failed");
    assert_eq!(RelayCryptoError::Message("x".into()).to_string(), "invalid message: x");
    assert_eq!(RelayCryptoError::KeyMaterial.to_string(), "invalid key material");
}
