use clipsync::clipboard::watch::{
    is_event_driven, pipe_failure, read_for_emit, watch_command, watched_mimes, Debouncer, DebounceEmitter,
    PipeEvent, WatchAction, Watcher,
};
use clipsync::clipboard::x11::{is_text_mime, target_available, MAX_BYTES};
use clipsync::clipboard::{
    is_supported_image_mime, sha256_hex, BackendKind, ClipboardEvent, ClipboardManager,
    ClipboardSnapshot, ClipboardTools, ReadStep, SelfWriteTracker, ToolOutcome, ToolPhase, WriteOrigin,
    WriteOutcome, MIME_HTML, MIME_JPEG, MIME_PNG, MIME_TEXT, MIME_TEXT_PLAIN,
};
use clipsync::error::Error;

fn ms(n: u128) -> u128 {
    n * 1_000_000
}

fn done() -> WriteOutcome {
    WriteOutcome::Exited { success: true, stderr: Vec::new() }
}

fn wayland() -> ClipboardManager {
    ClipboardManager::new(true, true)
}

fn x11() -> ClipboardManager {
    ClipboardManager::new(false, true)
}

fn out(text: &str) -> ToolOutcome {
    ToolOutcome::Finished { success: true, stdout: text.as_bytes().to_vec() }
}

fn nothing() -> ToolOutcome {
    ToolOutcome::Finished { success: false, stdout: Vec::new() }
}

fn failed(phase: ToolPhase) -> ToolOutcome {
    ToolOutcome::Failed { phase, reason: "why".into() }
}

fn run(step: ReadStep, outcome: ToolOutcome) -> ReadStep {
    match step {
        ReadStep::Run(plan, _) => plan.resume(outcome),
        other => panic!("no command to run: {other:?}"),
    }
}

fn command(step: &ReadStep) -> String {
    match step {
        ReadStep::Run(_, c) => format!("{} {}", c.program, c.args.join(" ")),
        other => panic!("no command to run: {other:?}"),
    }
}

fn content(step: ReadStep) -> Option<ClipboardSnapshot> {
    match step {
        ReadStep::Done(s) => s,
        other => panic!("not done: {other:?}"),
    }
}

fn error(step: ReadStep) -> String {
    match step {
        ReadStep::Failed(e) => e.to_string(),
        other => panic!("not failed: {other:?}"),
    }
}

#[test]
fn html_constructor_uses_alt_as_bytes() {
    let s = ClipboardSnapshot::new_html("<b>oi</b>".into(), Some("oi".into()), "sha123".into());
    assert_eq!(s.mime, MIME_HTML);
    assert_eq!(s.bytes, b"oi".to_vec());
    assert_eq!(s.html(), Some("<b>oi</b>"));
    assert_eq!(s.sha256, "sha123");
    let rich = s.rich.as_ref().expect("rich text presente");
    assert_eq!(rich.sha256, "sha123");
}

#[test]
fn html_constructor_falls_back_to_html_bytes() {
    let s = ClipboardSnapshot::new_html("<b>oi</b>".into(), None, "sha123".into());
    assert_eq!(s.bytes, b"<b>oi</b>".to_vec());
    let rich = s.rich.as_ref().expect("rich text presente");
    assert_eq!(rich.sha256, "sha123");
}

#[test]
fn snapshot_hashes_deterministically() {
    let s1 = ClipboardManager::snapshot("text/plain", b"hello".to_vec());
    let s2 = ClipboardManager::snapshot("text/plain", b"hello".to_vec());
    let s3 = ClipboardManager::snapshot("text/plain", b"hellp".to_vec());
    assert_eq!(s1.sha256, s2.sha256);
    assert_ne!(s1.sha256, s3.sha256);
    assert!(s1.rich.is_none());
}

#[test]
fn rich_text_hash_differs_from_plain_text_hash() {
    let s = ClipboardSnapshot::new_html(
        "<b>hello</b>".into(),
        Some("hello".into()),
        sha256_hex(b"<b>hello</b>"),
    );
    let plain = ClipboardManager::snapshot("text/plain", b"hello".to_vec());
    assert_ne!(s.sha256, plain.sha256);
    let rich = s.rich.as_ref().expect("rich text presente");
    assert_eq!(rich.sha256, s.sha256);
}

#[test]
fn html_accessor_returns_content() {
    let s = ClipboardSnapshot::new_html(
        "<b>x</b>".into(),
        None,
        ClipboardManager::snapshot("text/html", b"<b>x</b>".to_vec()).sha256,
    );
    assert_eq!(s.html(), Some("<b>x</b>"));
    assert_eq!(s.text(), Some("<b>x</b>"));
}

#[test]
fn digest_in_hexadecimal() {
    assert_eq!(
        sha256_hex(b"abc"),
        "ba7816bf8f01cfea414140de5dae2223b00361a396177a9cb410ff61f20015ad"
    );
    assert_eq!(
        sha256_hex(b""),
        "e3b0c44298fc1c149afbf4c8996fb92427ae41e4649b934ca495991b7852b855"
    );
}

#[test]
fn text_needs_a_text_type_and_valid_utf8() {
    let image = ClipboardSnapshot::new_image(MIME_PNG, b"abc".to_vec(), "h".into());
    assert_eq!(image.text(), None);
    assert!(image.is_image());
    assert_eq!(image.size(), 3);
    let bad = ClipboardSnapshot::new_text(MIME_TEXT, vec![0xff, 0xfe], "h".into());
    assert_eq!(bad.text(), None);
    let good = ClipboardSnapshot::new_text(MIME_TEXT, "olá".as_bytes().to_vec(), "h".into());
    assert_eq!(good.text(), Some("olá"));
    assert!(!good.is_image());
    assert_eq!(good.html(), None);
    let copy = good.clone();
    assert_eq!(copy.bytes, good.bytes);
}

#[test]
fn headless_works_without_display() {
    let m = ClipboardManager::headless();
    assert_eq!(m.backend_kind(), BackendKind::Headless);
    assert!(content(m.read(vec![MIME_TEXT.to_owned()])).is_none());
    let mut tracker = SelfWriteTracker::new();
    let w = m.write_text("hello", WriteOrigin::Local).unwrap();
    assert!(w.command().is_none());
    w.complete(&done(), &mut tracker).unwrap();
    m.write_html("<b>hello</b>", WriteOrigin::Local).unwrap().complete(&done(), &mut tracker).unwrap();
}

#[test]
fn shared_self_write_tracker_marks_across_managers() {
    let watcher = ClipboardManager::headless();
    let mut tracker = SelfWriteTracker::new();
    let writer = watcher.share_self_write();
    let sha = sha256_hex(b"eco");

    writer.write_text("eco", WriteOrigin::Remote).unwrap().complete(&done(), &mut tracker).unwrap();
    assert!(tracker.matches(&sha));

    writer.write_text("outro", WriteOrigin::Local).unwrap().complete(&done(), &mut tracker).unwrap();
    assert!(tracker.matches(&sha));
    tracker.clear();
    assert!(!tracker.matches(&sha));
}

#[test]
fn backend_follows_the_display_variables() {
    assert_eq!(ClipboardManager::pick_backend(true, true), BackendKind::Wayland);
    assert_eq!(ClipboardManager::pick_backend(true, false), BackendKind::Wayland);
    assert_eq!(ClipboardManager::pick_backend(false, true), BackendKind::X11);
    assert_eq!(ClipboardManager::pick_backend(false, false), BackendKind::Headless);
    assert_eq!(BackendKind::Wayland.name(), "wayland");
    assert_eq!(BackendKind::X11.name(), "x11");
    assert_eq!(BackendKind::Headless.name(), "headless");
}

#[test]
fn missing_tools_are_named() {
    let none = ClipboardTools::default();
    let all = ClipboardTools { wl_copy: true, wl_paste: true, xclip: true };
    assert!(wayland().check_tools(&all).is_ok());
    assert!(x11().check_tools(&all).is_ok());
    assert!(ClipboardManager::headless().check_tools(&none).is_ok());
    assert_eq!(
        wayland().check_tools(&none).unwrap_err(),
        Error::Clipboard(
            "wl-copy/wl-paste não encontrados. Instale com: sudo pacman -S wl-clipboard".into()
        )
    );
    assert_eq!(
        x11().check_tools(&none).unwrap_err(),
        Error::Clipboard("xclip não encontrado. Instale com: sudo pacman -S xclip".into())
    );
}

#[test]
fn wayland_reads_the_first_type_with_content() {
    let step = wayland().read(vec![MIME_TEXT.into(), MIME_PNG.into()]);
    assert_eq!(command(&step), "wl-paste --no-newline --type text/plain;charset=utf-8");
    let step = run(step, nothing());
    assert_eq!(command(&step), "wl-paste --no-newline --type image/png");
    let snap = content(run(step, out("png"))).unwrap();
    assert_eq!(snap.mime, MIME_PNG);
    assert_eq!(snap.bytes, b"png");
    assert_eq!(snap.sha256, sha256_hex(b"png"));
    assert!(snap.rich.is_none());
}

#[test]
fn wayland_reads_markup_beside_text() {
    let step = run(wayland().read(vec![MIME_TEXT.into()]), out("oi"));
    assert_eq!(command(&step), "wl-paste --no-newline --type text/html");
    let snap = content(run(step, out("<b>oi</b>"))).unwrap();
    assert_eq!(snap.text(), Some("oi"));
    assert_eq!(snap.html(), Some("<b>oi</b>"));
    assert_eq!(snap.rich.unwrap().sha256, sha256_hex(b"<b>oi</b>"));

    let step = run(wayland().read(vec![MIME_TEXT.into()]), out("oi"));
    let snap = content(run(step, failed(ToolPhase::Start))).unwrap();
    assert!(snap.rich.is_none());
    let step = run(wayland().read(vec![MIME_TEXT.into()]), out("oi"));
    assert!(content(run(step, nothing())).unwrap().rich.is_none());
}

#[test]
fn wayland_markup_is_its_own_rich_form() {
    let snap = content(run(wayland().read(vec![MIME_HTML.into()]), out("<i>x</i>"))).unwrap();
    assert_eq!(snap.html(), Some("<i>x</i>"));
    assert_eq!(snap.rich.as_ref().unwrap().sha256, snap.sha256);
    let bad = ToolOutcome::Finished { success: true, stdout: vec![b'a', 0xff] };
    let snap = content(run(wayland().read(vec![MIME_HTML.into()]), bad)).unwrap();
    assert_eq!(snap.html(), Some("a\u{fffd}"));
}

#[test]
fn wayland_read_ends() {
    let step = wayland().read(vec![MIME_TEXT.into()]);
    assert!(content(run(step, out(""))).is_none());
    assert!(content(wayland().read(vec![])).is_none());
    assert_eq!(
        error(run(wayland().read(vec![MIME_TEXT.into()]), failed(ToolPhase::Start))),
        "clipboard backend unavailable: why"
    );
}

#[test]
fn x11_reads_only_what_is_offered() {
    let mimes = vec![MIME_TEXT.to_owned(), MIME_PNG.to_owned()];
    let step = x11().read(mimes.clone());
    assert_eq!(command(&step), "xclip -selection clipboard -target TARGETS -o");
    let step = run(step, out("TARGETS\nimage/png\n"));
    assert_eq!(command(&step), "xclip -selection clipboard -target image/png -o");
    let snap = content(run(step, out("img"))).unwrap();
    assert_eq!((snap.mime.as_str(), snap.bytes.as_slice()), (MIME_PNG, b"img".as_slice()));

    let step = run(x11().read(mimes.clone()), out("TARGETS\nUTF8_STRING\nimage/png\n"));
    assert_eq!(command(&step), "xclip -selection clipboard -target UTF8_STRING -o");
    assert_eq!(content(run(step, out("oi"))).unwrap().mime, MIME_TEXT);
    assert!(content(run(x11().read(mimes.clone()), out("TARGETS\n"))).is_none());
    assert!(content(run(x11().read(mimes.clone()), nothing())).is_none());
    let step = run(x11().read(mimes.clone()), out("UTF8_STRING\n"));
    assert!(content(run(step, nothing())).is_none());
    let step = run(x11().read(mimes.clone()), out("UTF8_STRING\n"));
    let big = ToolOutcome::Finished { success: false, stdout: vec![0; MAX_BYTES + 1] };
    assert_eq!(
        error(run(step, big)),
        "clipboard backend unavailable: conteúdo X11 excede o limite de 26214400 bytes"
    );
}

#[test]
fn x11_passes_over_markup() {
    let mimes = vec![MIME_HTML.to_owned(), MIME_PNG.to_owned()];
    assert!(content(run(x11().read(mimes.clone()), out("TARGETS\ntext/html\n"))).is_none());
    let step = run(x11().read(mimes), out("text/html\nimage/png\n"));
    assert_eq!(command(&step), "xclip -selection clipboard -target image/png -o");
}

#[test]
fn x11_read_errors_name_the_phase() {
    let begin = || x11().read(vec![MIME_PNG.to_owned()]);
    let fetching = || run(begin(), out("image/png"));
    let p = "clipboard backend unavailable: falha ";
    assert_eq!(error(run(begin(), failed(ToolPhase::Start))), format!("{p}executando xclip TARGETS: why"));
    assert_eq!(
        error(run(fetching(), failed(ToolPhase::Start))),
        format!("{p}executando xclip image/png: why")
    );
    assert_eq!(error(run(fetching(), failed(ToolPhase::Read))), format!("{p}lendo xclip image/png: why"));
    assert_eq!(
        error(run(fetching(), failed(ToolPhase::Wait))),
        format!("{p}aguardando xclip image/png: why")
    );
}

#[test]
fn selects_only_advertised_targets_and_maps_utf8_text() {
    let targets = "TARGETS\nUTF8_STRING\nimage/png\n";
    assert!(target_available(MIME_TEXT, targets));
    assert!(target_available(MIME_TEXT_PLAIN, targets));
    assert!(target_available(MIME_PNG, targets));
    assert!(!target_available(MIME_JPEG, targets));
}

#[test]
fn rejects_unlisted_mime() {
    assert!(!target_available("image/gif", "TARGETS\nimage/png\n"));
}

#[test]
fn targets_are_trimmed_and_compared_without_case() {
    assert!(target_available(MIME_PNG, "  IMAGE/PNG \r\n"));
    assert!(target_available(MIME_TEXT, "text/plain"));
    assert!(!target_available(MIME_TEXT_PLAIN, "utf8_string"));
    assert!(!target_available(MIME_PNG, ""));
    assert!(is_text_mime(MIME_TEXT) && is_text_mime(MIME_TEXT_PLAIN) && !is_text_mime(MIME_HTML));
    assert!(is_supported_image_mime(MIME_JPEG) && !is_supported_image_mime("image/gif"));
}

#[test]
fn writes_name_their_command() {
    let w = wayland().write_html("<b>", WriteOrigin::Local).unwrap();
    let c = w.command().unwrap();
    assert_eq!((c.program.as_str(), c.args.join(" ")), ("wl-copy", "--type text/html".to_owned()));
    assert_eq!(w.data(), b"<b>");
    let w = x11().write_text("oi", WriteOrigin::Local).unwrap();
    let c = w.command().unwrap();
    assert_eq!(c.args.join(" "), "-selection clipboard -target UTF8_STRING -i");
    let w = x11().write_image(MIME_PNG, &[1], WriteOrigin::Local).unwrap();
    assert_eq!(w.command().unwrap().args.join(" "), "-selection clipboard -target image/png -i");
}

#[test]
fn unsupported_writes_are_refused() {
    assert_eq!(
        wayland().write_image("text/plain", &[1], WriteOrigin::Local).unwrap_err(),
        Error::Protocol("mime de imagem inválido: text/plain".into())
    );
    assert_eq!(
        x11().write_html("<b>", WriteOrigin::Local).unwrap_err(),
        Error::Protocol("MIME X11 não suportado: text/html".into())
    );
    assert_eq!(
        x11().write_image(MIME_PNG, &vec![0; MAX_BYTES + 1], WriteOrigin::Local).unwrap_err(),
        Error::Clipboard("conteúdo X11 excede o limite de 26214400 bytes".into())
    );
}

#[test]
fn failed_writes_are_reported_and_not_remembered() {
    let outcomes = [
        (WriteOutcome::SpawnFailed("e".into()), "falha spawn wl-copy: e"),
        (WriteOutcome::StdinFailed("e".into()), "falha escrevendo stdin: e"),
        (WriteOutcome::WaitFailed("e".into()), "falha wait wl-copy: e"),
        (
            WriteOutcome::Exited { success: false, stderr: b" no display \n".to_vec() },
            "wl-copy falhou: no display",
        ),
    ];
    for (outcome, want) in outcomes {
        let mut tracker = SelfWriteTracker::new();
        let w = wayland().write_text("x", WriteOrigin::Remote).unwrap();
        assert_eq!(w.complete(&outcome, &mut tracker).unwrap_err(), Error::Clipboard(want.into()));
        assert!(!tracker.matches(&sha256_hex(b"x")));
    }
}

#[test]
fn debouncer_coalesces_bursts_to_latest() {
    let mut d = Debouncer::default();
    let t0: u128 = 0;
    let s1 = ClipboardManager::snapshot("text/plain", b"a".to_vec());
    let s2 = ClipboardManager::snapshot("text/plain", b"ab".to_vec());
    let s3 = ClipboardManager::snapshot("text/plain", b"abc".to_vec());

    d.feed_at(s1, t0);
    d.feed_at(s2, t0 + ms(100));
    d.feed_at(s3, t0 + ms(200));

    assert!(d.fire_at(t0 + ms(499)).is_none());
    assert!(d.has_pending());

    let emitted = d.fire_at(t0 + ms(500)).expect("emite o último snapshot da rajada");
    assert_eq!(emitted.text(), Some("abc"));

    assert!(!d.has_pending());
    assert!(d.fire_at(t0 + ms(9999)).is_none());
}

#[test]
fn debouncer_rearms_on_new_feed() {
    let mut d = Debouncer::default();
    let t0: u128 = 0;
    let s1 = ClipboardManager::snapshot("text/plain", b"first".to_vec());
    let s2 = ClipboardManager::snapshot("text/plain", b"second".to_vec());

    d.feed_at(s1, t0);
    d.feed_at(s2, t0 + ms(400));
    assert!(d.fire_at(t0 + ms(699)).is_none());
    let emitted = d.fire_at(t0 + ms(700)).expect("emite o segundo snapshot");
    assert_eq!(emitted.text(), Some("second"));
}

#[test]
fn read_for_emit_dedups_in_headless() {
    let mut m = ClipboardManager::headless();
    let mut tracker = SelfWriteTracker::new();
    let read = content(m.read(watched_mimes()));
    assert!(read_for_emit(&mut m, &mut tracker, read).is_none());
    let read = content(m.read(watched_mimes()));
    assert!(read_for_emit(&mut m, &mut tracker, read).is_none());
}

#[test]
fn own_writes_are_absorbed_once() {
    let mut m = ClipboardManager::headless();
    let mut tracker = SelfWriteTracker::new();
    let snap = || Some(ClipboardManager::snapshot(MIME_TEXT, b"eco".to_vec()));
    tracker.set(sha256_hex(b"eco"));
    assert!(read_for_emit(&mut m, &mut tracker, snap()).is_none());
    assert!(!tracker.matches(&sha256_hex(b"eco")));
    assert!(read_for_emit(&mut m, &mut tracker, snap()).is_none());
    let other = Some(ClipboardManager::snapshot(MIME_TEXT, b"novo".to_vec()));
    assert_eq!(read_for_emit(&mut m, &mut tracker, other).unwrap().text(), Some("novo"));
    assert_eq!(read_for_emit(&mut m, &mut tracker, snap()).unwrap().text(), Some("eco"));
    assert!(read_for_emit(&mut m, &mut tracker, None).is_none());
    assert!(read_for_emit(&mut m, &mut tracker, snap()).is_some());
}

#[test]
fn emitter_waits_for_its_timer() {
    let mut e = DebounceEmitter::new();
    assert!(!e.is_ready());
    e.feed(ClipboardManager::snapshot(MIME_TEXT, b"a".to_vec()), ms(10));
    assert!(e.is_ready());
    assert!(e.try_fire(ms(309)).is_none());
    assert!(e.is_ready());
    assert!(e.try_fire(ms(310)).is_some());
    assert!(!e.is_ready());
}

#[test]
fn watcher_holds_changes_back_and_reports_failures() {
    let mut tracker = SelfWriteTracker::new();
    let mut w = Watcher::new(ClipboardManager::headless());
    assert_eq!(w.manager().backend_kind(), BackendKind::Headless);
    let snap = ClipboardManager::snapshot(MIME_TEXT, b"a".to_vec());
    assert!(matches!(w.on_read(&mut tracker, Ok(Some(snap.clone())), ms(0)), WatchAction::ArmTimer));
    assert!(matches!(w.on_read(&mut tracker, Ok(Some(snap)), ms(100)), WatchAction::Wait));
    assert!(w.is_ready());
    assert!(w.on_timer(ms(299)).is_none());
    match w.on_timer(ms(300)) {
        Some(ClipboardEvent::Changed(s)) => assert_eq!(s.text(), Some("a")),
        other => panic!("unexpected {other:?}"),
    }
    match w.on_read(&mut tracker, Err(Error::Clipboard("x".into())), ms(400)) {
        WatchAction::Report(ClipboardEvent::BackendLost(e)) => {
            assert_eq!(e, "clipboard backend unavailable: x")
        }
        other => panic!("unexpected {other:?}"),
    }
}

#[test]
fn watch_runs_on_events_where_it_can() {
    let tools = ClipboardTools { wl_copy: false, wl_paste: true, xclip: false };
    assert!(is_event_driven(BackendKind::Wayland, &tools));
    assert!(!is_event_driven(BackendKind::X11, &tools));
    assert!(!is_event_driven(BackendKind::Wayland, &ClipboardTools::default()));
    let c = watch_command();
    assert_eq!((c.program.as_str(), c.args.join(" ")), ("wl-paste", "--watch cat".to_owned()));
    assert!(pipe_failure(&PipeEvent::Data(3)).is_none());
    assert_eq!(
        pipe_failure(&PipeEvent::Data(0)).unwrap(),
        Error::Clipboard("wl-paste --watch encerrou (EOF)".into())
    );
    assert_eq!(
        pipe_failure(&PipeEvent::Error("e".into())).unwrap(),
        Error::Clipboard("wl-paste --watch read: e".into())
    );
    assert_eq!(watched_mimes(), vec![MIME_TEXT, MIME_PNG, MIME_JPEG, MIME_HTML]);
}
