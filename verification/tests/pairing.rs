use clipsync::daemon::{format_last_seen, last_seen_text, trusted_listing};
use clipsync::error::Error;
use clipsync::pairing::{
    generate_nonce, generate_pin, PairingError, PairingManager, TrustChange, TrustedDevice, TrustedStore,
    DEFAULT_PIN_TTL, MAX_ATTEMPTS,
};
use clipsync::protocol::{DeviceId, PairFailReason};

fn device(id: &str, last_seen: i64) -> TrustedDevice {
    TrustedDevice {
        id: DeviceId::from(id),
        name: id.into(),
        kind: "android".into(),
        last_seen,
        paired_at: 1,
        trusted: true,
    }
}

#[test]
fn pin_is_6_digits() {
    for _ in 0..100 {
        let pin = generate_pin();
        assert_eq!(pin.len(), 6);
        assert!(pin.chars().all(|c| c.is_ascii_digit()));
        assert!(!pin.starts_with('0'));
    }
}

#[test]
fn nonces_are_hexadecimal_and_differ() {
    let a = generate_nonce();
    assert_eq!(a.len(), 32);
    assert!(a.chars().all(|c| c.is_ascii_hexdigit()));
    assert_ne!(a, generate_nonce());
}

#[test]
fn valid_pairing_flow() {
    let mut pm = PairingManager::new();
    let ch = pm.start_challenge("session-1", "Pixel 8", DEFAULT_PIN_TTL);
    let device_id =
        pm.submit("session-1", &ch.challenge_id, &ch.nonce, &ch.code, "android").unwrap();
    assert!(pm.is_trusted(&device_id));
}

#[test]
fn wrong_code_consumes_attempt() {
    let mut pm = PairingManager::new();
    let ch = pm.start_challenge("session-1", "Pixel 8", DEFAULT_PIN_TTL);
    let r = pm.submit("session-1", &ch.challenge_id, &ch.nonce, "000000", "android");
    assert!(matches!(r, Err(PairingError::Invalid(PairFailReason::InvalidCode))));
    assert_eq!(pm.challenge().unwrap().attempts_left, MAX_ATTEMPTS - 1);
}

#[test]
fn wrong_nonce_rejected() {
    let mut pm = PairingManager::new();
    let ch = pm.start_challenge("session-1", "Pixel 8", DEFAULT_PIN_TTL);
    let r = pm.submit("session-1", &ch.challenge_id, "deadbeef", "000000", "android");
    assert!(matches!(r, Err(PairingError::Invalid(PairFailReason::InvalidCode))));
    assert_eq!(pm.challenge().unwrap().attempts_left, MAX_ATTEMPTS);
}

#[test]
fn wrong_challenge_id_rejected() {
    let mut pm = PairingManager::new();
    let ch = pm.start_challenge("session-1", "Pixel 8", DEFAULT_PIN_TTL);
    let r = pm.submit("session-1", "ch-inexistente", &ch.nonce, &ch.code, "android");
    assert!(matches!(r, Err(PairingError::Invalid(PairFailReason::Expired))));
    assert_eq!(pm.challenge().unwrap().attempts_left, MAX_ATTEMPTS);
}

#[test]
fn trust_bootstrap() {
    let mut pm = PairingManager::new();
    let id = pm.trust("my-phone", "android");
    assert!(pm.is_trusted(&id));
    assert_eq!(pm.trusted_devices().len(), 1);
}

#[test]
fn newer_challenge_invalidates_previous_one() {
    let mut pm = PairingManager::new();
    let first = pm.start_challenge("session-1", "Pixel 8", DEFAULT_PIN_TTL);
    let second = pm.start_challenge("session-2", "Galaxy S23", DEFAULT_PIN_TTL);

    assert_eq!(pm.active_pin().as_deref(), Some(second.code.as_str()));
    assert!(matches!(
        pm.submit("session-1", &first.challenge_id, &first.nonce, &first.code, "android"),
        Err(PairingError::Invalid(PairFailReason::Expired))
    ));

    let dev_id = pm
        .submit("session-2", &second.challenge_id, &second.nonce, &second.code, "android")
        .unwrap();
    assert!(pm.is_trusted(&dev_id));
    assert_eq!(pm.active_pin(), None);
}

#[test]
fn challenge_cannot_be_submitted_by_another_session_with_same_name() {
    let mut pm = PairingManager::new();
    let challenge = pm.start_challenge("session-a", "same-name", DEFAULT_PIN_TTL);
    let result =
        pm.submit("session-b", &challenge.challenge_id, &challenge.nonce, &challenge.code, "linux");
    assert!(matches!(result, Err(PairingError::Invalid(PairFailReason::InvalidCode))));
    assert_eq!(
        pm.challenge().map(|active| active.challenge_id.as_str()),
        Some(challenge.challenge_id.as_str())
    );
}

#[test]
fn challenge_closes_after_five_wrong_codes() {
    let mut pm = PairingManager::new();
    let ch = pm.start_challenge("s", "d", DEFAULT_PIN_TTL);
    for _ in 0..4 {
        assert_eq!(
            pm.submit("s", &ch.challenge_id, &ch.nonce, "000000", "linux"),
            Err(PairingError::Invalid(PairFailReason::InvalidCode))
        );
    }
    assert_eq!(
        pm.submit("s", &ch.challenge_id, &ch.nonce, "000000", "linux"),
        Err(PairingError::Invalid(PairFailReason::TooManyAttempts))
    );
    assert_eq!(
        pm.submit("s", &ch.challenge_id, &ch.nonce, &ch.code, "linux"),
        Err(PairingError::Invalid(PairFailReason::Expired))
    );
}

#[test]
fn expired_challenge_is_refused_and_closed() {
    let mut pm = PairingManager::new();
    let ch = pm.start_challenge_at("s", "d", 2, "id".into(), "123456".into(), "n".into(), 10);
    assert_eq!(ch.expires_at, 2_000_000_010);
    assert_eq!(pm.active_pin_at(2_000_000_009).as_deref(), Some("123456"));
    assert_eq!(pm.active_pin_at(2_000_000_010), None);
    assert_eq!(
        pm.judge_at("s", "id", "n", "123456", 2_000_000_010),
        Err(PairFailReason::Expired)
    );
    assert!(pm.challenge().is_none());
    let _ = pm.start_challenge_at("s", "d", 2, "id".into(), "123456".into(), "n".into(), 10);
    assert_eq!(pm.judge_at("s", "id", "n", "123456", 2_000_000_009), Ok("d".into()));
}

#[test]
fn challenge_without_time_expires_at_once() {
    let mut pm = PairingManager::new();
    let ch = pm.start_challenge("s", "d", 0);
    assert_eq!(pm.active_pin(), None);
    assert_eq!(
        pm.submit("s", &ch.challenge_id, &ch.nonce, &ch.code, "linux"),
        Err(PairingError::Invalid(PairFailReason::Expired))
    );
}

#[test]
fn cancelling_closes_only_the_sessions_own_challenge() {
    let mut pm = PairingManager::new();
    let _ = pm.start_challenge("a", "d", DEFAULT_PIN_TTL);
    pm.cancel_session("b");
    assert!(pm.challenge().is_some());
    pm.cancel_session("a");
    assert!(pm.challenge().is_none());
}

#[test]
fn trust_does_not_publish_failed_commit() {
    let mut pm = PairingManager::new();
    let change = PairingManager::begin_trust("my-phone", "android");
    assert_eq!(pm.store_after(&change).devices.len(), 1);
    assert!(pm.commit(change, Err(Error::Config("disk".into()))).is_err());
    assert!(pm.trusted_devices().is_empty());
}

#[test]
fn submit_does_not_publish_or_consume_on_failed_commit() {
    let mut pm = PairingManager::new();
    let challenge = pm.start_challenge("session-1", "my-phone", DEFAULT_PIN_TTL);
    let change = pm
        .begin_submit(
            "session-1",
            &challenge.challenge_id,
            &challenge.nonce,
            &challenge.code,
            "android",
        )
        .unwrap();
    assert!(pm.commit(change, Err(Error::Config("disk".into()))).is_err());
    assert!(pm.trusted_devices().is_empty());
    assert_eq!(pm.active_pin().as_deref(), Some(challenge.code.as_str()));
}

#[test]
fn untrust_does_not_publish_failed_commit() {
    let mut pm = PairingManager::new();
    let id = pm.trust("my-phone", "android");
    let change = TrustChange::Remove(id.clone());
    assert!(pm.store_after(&change).devices.is_empty());
    assert!(pm.commit(change, Err(Error::Config("disk".into()))).is_err());
    assert!(pm.is_trusted(&id));
}

#[test]
fn persistence_survives_manager_reload() {
    let mut pm = PairingManager::new();
    let ch = pm.start_challenge("session-1", "Pixel 8", DEFAULT_PIN_TTL);
    let change = pm
        .begin_submit("session-1", &ch.challenge_id, &ch.nonce, &ch.code, "android")
        .unwrap();
    let saved = pm.store_after(&change);
    let device_id = match &change {
        TrustChange::Pair(d) => d.id.clone(),
        other => panic!("unexpected {other:?}"),
    };
    pm.commit(change, Ok(())).unwrap();
    assert!(pm.is_trusted(&device_id));
    let device_name = pm.device_name(&device_id).unwrap().to_owned();

    let pm2 = PairingManager::with_store(saved);
    assert!(pm2.is_trusted(&device_id), "device deve permanecer confiado após reload");
    assert_eq!(pm2.device_name(&device_id).unwrap(), device_name);
    assert_eq!(pm2.trusted_devices().len(), 1);
}

#[test]
fn trust_and_untrust_persist() {
    let mut pm = PairingManager::new();
    let change = PairingManager::begin_trust("my-phone", "android");
    let id = match &change {
        TrustChange::Trust(d) => d.id.clone(),
        other => panic!("unexpected {other:?}"),
    };
    let saved = pm.store_after(&change);
    pm.commit(change, Ok(())).unwrap();

    let mut pm2 = PairingManager::with_store(saved);
    assert!(pm2.is_trusted(&id));

    let change = TrustChange::Remove(id.clone());
    let saved = pm2.store_after(&change);
    pm2.commit(change, Ok(())).unwrap();

    let pm3 = PairingManager::with_store(saved);
    assert!(!pm3.is_trusted(&id), "device removido deve sumir no reload");
}

#[test]
fn untrust_forgets_at_once() {
    let mut pm = PairingManager::new();
    let id = pm.trust("my-phone", "android");
    assert!(pm.knows(&id));
    assert!(pm.untrust(&id));
    assert!(!pm.untrust(&id));
    assert!(!pm.is_trusted(&id));
    assert_eq!(pm.device_name(&id), None);
}

#[test]
fn devices_that_are_not_trusted_are_known_only() {
    let mut d = device("x", 1);
    d.trusted = false;
    let pm = PairingManager::with_store(TrustedStore { devices: vec![d] });
    assert!(!pm.is_trusted(&DeviceId::from("x")));
    assert_eq!(pm.device_name(&DeviceId::from("x")), Some("x"));
}

#[test]
fn later_entries_of_a_store_win() {
    let mut second = device("x", 9);
    second.name = "newer".into();
    let pm = PairingManager::with_store(TrustedStore { devices: vec![device("x", 1), second] });
    assert_eq!(pm.trusted_devices().len(), 1);
    assert_eq!(pm.device_name(&DeviceId::from("x")), Some("newer"));
}

#[test]
fn being_seen_moves_a_device_up() {
    let mut pm =
        PairingManager::with_store(TrustedStore { devices: vec![device("a", 5), device("b", 7)] });
    let ids = |pm: &PairingManager| -> Vec<String> {
        pm.trusted_devices().iter().map(|d| d.id.to_string()).collect()
    };
    assert_eq!(ids(&pm), vec!["b", "a"]);
    pm.mark_seen_at(&DeviceId::from("a"), 8);
    assert_eq!(ids(&pm), vec!["a", "b"]);
    pm.mark_seen_at(&DeviceId::from("c"), 9);
    assert_eq!(ids(&pm), vec!["a", "b"]);
    pm.mark_seen(&DeviceId::from("b"));
    assert_eq!(ids(&pm), vec!["b", "a"]);
}

#[test]
fn trusted_store_remove() {
    let mut store = TrustedStore {
        devices: vec![TrustedDevice {
            id: DeviceId::from("abc"),
            name: "Pixel 8".into(),
            kind: "android".into(),
            last_seen: 1,
            paired_at: 1,
            trusted: true,
        }],
    };
    assert!(store.remove("abc"));
    assert!(store.devices.is_empty());
    assert!(!store.remove("abc"));
}

#[test]
fn trusted_store_sorted_by_last_seen_desc() {
    let store = TrustedStore {
        devices: vec![
            TrustedDevice {
                id: DeviceId::from("old"),
                name: "old".into(),
                kind: "android".into(),
                last_seen: 1,
                paired_at: 1,
                trusted: true,
            },
            TrustedDevice {
                id: DeviceId::from("new"),
                name: "new".into(),
                kind: "android".into(),
                last_seen: 3,
                paired_at: 1,
                trusted: true,
            },
        ],
    };
    let ids: Vec<_> = store.trusted_devices().iter().map(|d| d.id.as_str()).collect();
    assert_eq!(ids, vec!["new", "old"]);
}

#[test]
fn sorting_keeps_equals_in_order() {
    let store = TrustedStore {
        devices: vec![device("a", 2), device("b", 3), device("c", 2), device("d", 3)],
    };
    let ids: Vec<_> = store.trusted_devices().iter().map(|d| d.id.as_str()).collect();
    assert_eq!(ids, vec!["b", "d", "a", "c"]);
    assert!(TrustedStore::default().trusted_devices().is_empty());
}

#[test]
fn submit_propagates_kind() {
    let mut pm = PairingManager::new();
    let ch = pm.start_challenge("session-1", "iPhone 15", DEFAULT_PIN_TTL);
    let device_id = pm.submit("session-1", &ch.challenge_id, &ch.nonce, &ch.code, "ios").unwrap();
    let devices = pm.trusted_devices();
    let device = devices.iter().find(|d| d.id == device_id).unwrap();
    assert_eq!(device.kind, "ios", "kind deve ser propagado do submit");
}

fn sample_store() -> TrustedStore {
    TrustedStore {
        devices: vec![TrustedDevice {
            id: DeviceId::from("abc-123"),
            name: "Pixel 8".into(),
            kind: "android".into(),
            last_seen: 1_700_000_000,
            paired_at: 1_690_000_000,
            trusted: true,
        }],
    }
}

#[test]
fn untrust_missing_device_returns_false() {
    let mut store = sample_store();
    assert!(!store.remove("nonexistent"));
    assert_eq!(store.devices.len(), 1);
}

#[test]
fn untrust_without_file_returns_false() {
    assert!(!TrustedStore::default().remove("abc-123"));
}

#[test]
fn list_trusted_empty_store_is_empty() {
    assert_eq!(trusted_listing(&TrustedStore::default()), vec!["Nenhum device pareado ainda."]);
}

#[test]
fn listing_describes_each_device() {
    assert_eq!(
        trusted_listing(&sample_store()),
        vec![
            "Devices confiados (1):",
            "  Pixel 8",
            "    ID: abc-123",
            "    Tipo: android",
            "    Último visto: 2023-11-14 22:13:20 UTC",
        ]
    );
}

#[test]
fn last_seen_in_words() {
    assert_eq!(format_last_seen(0), "nunca");
    assert_eq!(format_last_seen(1), "1970-01-01 00:00:01 UTC");
    assert_eq!(format_last_seen(1_700_000_000), "2023-11-14 22:13:20 UTC");
    assert_eq!(format_last_seen(i64::MAX), "9223372036854775807");
    assert_eq!(format_last_seen(i64::MIN), "-9223372036854775808");
    assert_eq!(last_seen_text(5, Some("x".into())), "x");
    assert_eq!(last_seen_text(-5, None), "-5");
}

#[test]
fn errors_of_the_store_become_pairing_errors() {
    assert_eq!(
        PairingError::from(Error::Config("x".into())),
        PairingError::Store(Error::Config("x".into()))
    );
}
