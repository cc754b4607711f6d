use base64::Engine;
use clipsync::clipboard::{
    sha256_hex, ClipboardEvent, ClipboardManager, ClipboardSnapshot, SelfWriteTracker, WriteOutcome,
    MIME_HTML, MIME_JPEG, MIME_PNG, MIME_TEXT,
};
use clipsync::config::ClipboardConfig;
use clipsync::dispatch::{
    apply_fallback, apply_peer_snapshot, event_to_message, message_to_event, ApplyStep,
};
use clipsync::protocol::{DeviceId, Message};

fn default_clipboard_cfg() -> ClipboardConfig {
    ClipboardConfig::default()
}

fn origin() -> DeviceId {
    DeviceId::from("test-origin")
}

fn snapshot_of(event: Option<ClipboardEvent>) -> ClipboardSnapshot {
    match event {
        Some(ClipboardEvent::Changed(s)) => *s,
        other => panic!("unexpected {other:?}"),
    }
}

#[test]
fn text_snapshot_produces_clipboard_text() {
    let snap =
        ClipboardSnapshot::new_text(MIME_TEXT, b"hello world".to_vec(), sha256_hex(b"hello world"));
    let cfg = default_clipboard_cfg();
    let msg = event_to_message(&snap, &cfg, &origin()).expect("esperava Some");
    match msg {
        Message::ClipboardText { mime, content, origin, sha256 } => {
            assert_eq!(mime, MIME_TEXT);
            assert_eq!(content, "hello world");
            assert_eq!(origin, DeviceId::from("test-origin"));
            assert!(!sha256.is_empty());
        }
        other => panic!("esperava ClipboardText, recebeu {}", other.kind_name()),
    }
}

#[test]
fn image_snapshot_produces_clipboard_image() {
    let img_bytes = vec![0x89, 0x50, 0x4E, 0x47];
    let snap = ClipboardSnapshot::new_image(MIME_PNG, img_bytes.clone(), sha256_hex(&img_bytes));
    let cfg = default_clipboard_cfg();
    let msg = event_to_message(&snap, &cfg, &origin()).expect("esperava Some");
    match msg {
        Message::ClipboardImage { mime, data_b64, origin, .. } => {
            assert_eq!(mime, MIME_PNG);
            let decoded = base64::engine::general_purpose::STANDARD.decode(&data_b64).unwrap();
            assert_eq!(decoded, img_bytes);
            assert_eq!(data_b64, "iVBORw==");
            assert_eq!(origin, DeviceId::from("test-origin"));
        }
        other => panic!("esperava ClipboardImage, recebeu {}", other.kind_name()),
    }
}

#[test]
fn html_snapshot_produces_clipboard_html_when_sync_html_enabled() {
    let html = "<b>bold</b>";
    let snap = ClipboardSnapshot::new_html(
        html.into(),
        Some("bold".into()),
        sha256_hex(html.as_bytes()),
    );
    let mut cfg = default_clipboard_cfg();
    cfg.sync_html = true;
    let msg = event_to_message(&snap, &cfg, &origin()).expect("esperava Some");
    match msg {
        Message::ClipboardHtml { html: h, alt, origin, .. } => {
            assert_eq!(h, "<b>bold</b>");
            assert_eq!(alt, Some("bold".into()));
            assert_eq!(origin, DeviceId::from("test-origin"));
        }
        other => panic!("esperava ClipboardHtml, recebeu {}", other.kind_name()),
    }
}

#[test]
fn rich_text_without_html_returns_none_when_html_enabled() {
    let snap = ClipboardSnapshot::new_text(MIME_TEXT, b"plain only".to_vec(), "hash".into());
    let mut cfg = default_clipboard_cfg();
    cfg.sync_html = true;
    cfg.sync_text = true;
    assert!(
        event_to_message(&snap, &cfg, &origin()).is_none(),
        "sync_html=true sem rich text deve retornar None"
    );
}

#[test]
fn text_disabled_returns_none() {
    let snap = ClipboardSnapshot::new_text(MIME_TEXT, b"hi".to_vec(), "hash".into());
    let mut cfg = default_clipboard_cfg();
    cfg.sync_text = false;
    assert!(event_to_message(&snap, &cfg, &origin()).is_none());
}

#[test]
fn image_disabled_returns_none() {
    let snap = ClipboardSnapshot::new_image(MIME_PNG, vec![0x89], "hash".into());
    let mut cfg = default_clipboard_cfg();
    cfg.sync_images = false;
    assert!(event_to_message(&snap, &cfg, &origin()).is_none());
}

#[test]
fn html_disabled_returns_none_for_html_snapshot() {
    let snap = ClipboardSnapshot::new_html("<b>x</b>".into(), Some("x".into()), "hash".into());
    let mut cfg = default_clipboard_cfg();
    cfg.sync_html = false;
    cfg.sync_text = false;
    assert!(event_to_message(&snap, &cfg, &origin()).is_none());
}

#[test]
fn html_enabled_but_no_rich_text_returns_none() {
    let snap = ClipboardSnapshot::new_text(MIME_TEXT, b"hi".to_vec(), "hash".into());
    let mut cfg = default_clipboard_cfg();
    cfg.sync_html = true;
    cfg.sync_text = false;
    assert!(event_to_message(&snap, &cfg, &origin()).is_none());
}

#[test]
fn jpeg_image_produces_clipboard_image() {
    let snap = ClipboardSnapshot::new_image(MIME_JPEG, vec![0xFF, 0xD8], "hash".into());
    let cfg = default_clipboard_cfg();
    let msg = event_to_message(&snap, &cfg, &origin()).expect("esperava Some");
    match msg {
        Message::ClipboardImage { mime, .. } => assert_eq!(mime, MIME_JPEG),
        other => panic!("esperava ClipboardImage, recebeu {}", other.kind_name()),
    }
}

#[test]
fn apply_text_snapshot_writes_to_clipboard() {
    let snap = ClipboardSnapshot::new_text(MIME_TEXT, b"peer text".to_vec(), "hash".into());
    let cm = ClipboardManager::headless();
    let mut tracker = SelfWriteTracker::new();
    match apply_peer_snapshot(&snap, &cm) {
        ApplyStep::Write { pending, fallback } => {
            assert!(fallback.is_none());
            assert_eq!(pending.data(), b"peer text");
            let ok = WriteOutcome::Exited { success: true, stderr: vec![] };
            pending.complete(&ok, &mut tracker).unwrap();
        }
        other => panic!("unexpected {other:?}"),
    }
    assert!(tracker.matches(&sha256_hex(b"peer text")));
}

#[test]
fn apply_image_snapshot_writes_to_clipboard() {
    let snap = ClipboardSnapshot::new_image(MIME_PNG, vec![0x89, 0x50], "hash".into());
    let cm = ClipboardManager::headless();
    match apply_peer_snapshot(&snap, &cm) {
        ApplyStep::Write { pending, fallback } => {
            assert!(fallback.is_none());
            assert_eq!(pending.data(), &[0x89, 0x50]);
        }
        other => panic!("unexpected {other:?}"),
    }
}

#[test]
fn apply_html_snapshot_writes_to_clipboard() {
    let snap =
        ClipboardSnapshot::new_html("<p>html</p>".into(), Some("html".into()), "hash".into());
    let cm = ClipboardManager::headless();
    match apply_peer_snapshot(&snap, &cm) {
        ApplyStep::Write { pending, fallback } => {
            assert_eq!(pending.data(), b"<p>html</p>");
            assert_eq!(fallback.as_deref(), Some("html"));
            match apply_fallback(&fallback, &cm) {
                ApplyStep::Write { pending, fallback } => {
                    assert_eq!(pending.data(), b"html");
                    assert!(matches!(apply_fallback(&fallback, &cm), ApplyStep::Done));
                }
                other => panic!("unexpected {other:?}"),
            }
        }
        other => panic!("unexpected {other:?}"),
    }
}

#[test]
fn apply_html_without_rich_text_does_nothing() {
    let snap = ClipboardSnapshot {
        mime: MIME_HTML.to_owned(),
        bytes: b"fallback".to_vec(),
        sha256: "hash".into(),
        rich: None,
    };
    let cm = ClipboardManager::headless();
    assert!(matches!(apply_peer_snapshot(&snap, &cm), ApplyStep::Done));
}

#[test]
fn apply_unknown_mime_does_nothing() {
    let snap = ClipboardSnapshot {
        mime: "application/octet-stream".into(),
        bytes: vec![0x00],
        sha256: "hash".into(),
        rich: None,
    };
    let cm = ClipboardManager::headless();
    assert!(matches!(apply_peer_snapshot(&snap, &cm), ApplyStep::Done));
}

#[test]
fn markup_falls_back_to_text_where_the_backend_has_none() {
    let snap = ClipboardSnapshot::new_html("<p>h</p>".into(), Some("h".into()), "hash".into());
    let cm = ClipboardManager::new(false, true);
    match apply_peer_snapshot(&snap, &cm) {
        ApplyStep::Write { pending, fallback } => {
            assert_eq!(pending.data(), b"h");
            assert!(fallback.is_none());
        }
        other => panic!("unexpected {other:?}"),
    }
}

#[test]
fn invalid_text_is_applied_as_empty() {
    let snap = ClipboardSnapshot::new_text(MIME_TEXT, vec![0xff], "hash".into());
    match apply_peer_snapshot(&snap, &ClipboardManager::headless()) {
        ApplyStep::Write { pending, .. } => assert_eq!(pending.data(), b""),
        other => panic!("unexpected {other:?}"),
    }
}

#[test]
fn what_is_sent_arrives() {
    let cfg = default_clipboard_cfg();
    let image = ClipboardSnapshot::new_image(MIME_PNG, (0..=255).collect(), "h".into());
    let got = snapshot_of(message_to_event(&event_to_message(&image, &cfg, &origin()).unwrap()));
    assert_eq!((got.mime, got.bytes, got.sha256), (image.mime, image.bytes, image.sha256));
    let text = ClipboardSnapshot::new_text(MIME_TEXT, "olá ✓".as_bytes().to_vec(), "h".into());
    let got = snapshot_of(message_to_event(&event_to_message(&text, &cfg, &origin()).unwrap()));
    assert_eq!((got.mime, got.bytes), (text.mime, text.bytes));
    let mut rich = default_clipboard_cfg();
    rich.sync_html = true;
    let html = ClipboardSnapshot::new_html("<b>x</b>".into(), Some("x".into()), "h".into());
    let got = snapshot_of(message_to_event(&event_to_message(&html, &rich, &origin()).unwrap()));
    assert_eq!(got.html(), Some("<b>x</b>"));
    assert_eq!(got.bytes, b"x");
}

#[test]
fn invalid_bytes_are_replaced_on_the_way_out() {
    let text = ClipboardSnapshot::new_text(MIME_TEXT, vec![b'a', 0xff, b'b'], "h".into());
    match event_to_message(&text, &default_clipboard_cfg(), &origin()).unwrap() {
        Message::ClipboardText { content, .. } => assert_eq!(content, "a\u{fffd}b"),
        other => panic!("unexpected {}", other.kind_name()),
    }
}

#[test]
fn messages_without_content_are_no_events() {
    assert!(message_to_event(&Message::Ping { ts: 1 }).is_none());
    let image = |data: &str| Message::ClipboardImage {
        mime: MIME_PNG.into(),
        data_b64: data.into(),
        width: None,
        height: None,
        sha256: "h".into(),
        origin: origin(),
    };
    for bad in ["AAA", "AA=A", "AB==", "A A=", "é==="] {
        assert!(message_to_event(&image(bad)).is_none(), "{bad}");
    }
    assert_eq!(snapshot_of(message_to_event(&image("+/8="))).bytes, vec![0xfb, 0xff]);
    assert_eq!(snapshot_of(message_to_event(&image(""))).bytes, Vec::<u8>::new());
}

#[test]
fn markup_alone_is_sent_without_a_plain_form() {
    let mut cfg = default_clipboard_cfg();
    cfg.sync_html = true;
    let snap = ClipboardSnapshot::new_html("<b>x</b>".into(), None, "h".into());
    match event_to_message(&snap, &cfg, &origin()).unwrap() {
        Message::ClipboardHtml { html, alt, sha256, .. } => {
            assert_eq!(html, "<b>x</b>");
            assert_eq!(alt, None);
            assert_eq!(sha256, "h");
        }
        other => panic!("unexpected {other:?}"),
    }
    let mut plain = ClipboardSnapshot::new_text(MIME_TEXT, b"x".to_vec(), "h".into());
    plain.rich = snap.rich.clone();
    match event_to_message(&plain, &cfg, &origin()).unwrap() {
        Message::ClipboardHtml { alt, .. } => assert_eq!(alt, Some("x".into())),
        other => panic!("unexpected {other:?}"),
    }
}
