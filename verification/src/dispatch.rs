//! Between the clipboard and the wire: what of a local change is sent, and what becomes
//! of what a peer sent.

use vstd::prelude::*;
use vstd::utf8::{decode_utf8_encode_utf8, encode_utf8, encode_utf8_decode_utf8, valid_utf8};

use crate::clipboard::{
    is_text, lemma_names, names_image, names_text, write_begun, BackendKind, ClipboardEvent,
    ClipboardManager, ClipboardSnapshot, EventView, PendingWrite, RichView, SnapshotView,
    WriteOrigin, WriteView, MIME_HTML, MIME_TEXT,
};
use crate::config::ClipboardConfig;
use crate::encoding;
use crate::error::Error;
use crate::protocol::{opt_view, DeviceId, Message, MessageView};
use crate::text;

verus! {

/// Whether `mime` is an image type.
pub open spec fn is_image(mime: Seq<char>) -> bool {
    text::has_prefix(mime, "image/"@)
}

/// The plain form that goes with markup: the snapshot's text, or none where all that it
/// holds is the markup itself.
pub open spec fn plain_form(snap: SnapshotView, html: Seq<char>) -> Option<Seq<char>> {
    if snap.mime == MIME_HTML@ && snap.bytes == encode_utf8(html) {
        None
    } else {
        snap.text()
    }
}

/// The message that tells peers of a snapshot, if it is to be sent: an image, where
/// images are; else, where markup is sent, the markup and nothing but markup; else text.
pub open spec fn message_of(
    snap: SnapshotView,
    cfg: ClipboardConfig,
    origin: Seq<char>,
) -> Option<MessageView> {
    if is_image(snap.mime) && cfg.sync_images {
        Some(
            MessageView::ClipboardImage {
                mime: snap.mime,
                data_b64: encoding::base64_of(snap.bytes),
                width: None,
                height: None,
                sha256: snap.sha256,
                origin,
            },
        )
    } else if cfg.sync_html {
        match snap.rich {
            None => None,
            Some(rich) => Some(
                MessageView::ClipboardHtml {
                    html: rich.html,
                    alt: plain_form(snap, rich.html),
                    sha256: rich.sha256,
                    origin,
                },
            ),
        }
    } else if is_text(snap.mime) && cfg.sync_text {
        Some(
            MessageView::ClipboardText {
                mime: snap.mime,
                content: encoding::lossy_text(snap.bytes),
                origin,
                sha256: snap.sha256,
            },
        )
    } else {
        None
    }
}

/// The contents of an optional message.
pub open spec fn message_view(m: Option<Message>) -> Option<MessageView> {
    match m {
        Some(m) => Some(m@),
        None => None,
    }
}

/// The message that tells peers of a local snapshot, if the settings let it be sent.
pub fn event_to_message(snap: &ClipboardSnapshot, cfg: &ClipboardConfig, origin: &DeviceId) -> (r:
    Option<Message>)
    requires
        is_image(snap@.mime) && cfg.sync_images ==> encoding::base64_fits(snap@.bytes.len()),
    ensures
        message_view(r) == message_of(snap@, *cfg, origin@),
{
    if text::starts_with(snap.mime.as_str(), "image/") && cfg.sync_images {
        Some(
            Message::ClipboardImage {
                mime: snap.mime.clone(),
                data_b64: encoding::base64_encode(snap.bytes.as_slice()),
                width: None,
                height: None,
                sha256: snap.sha256.clone(),
                origin: origin.clone(),
            },
        )
    } else if cfg.sync_html {
        match &snap.rich {
            None => None,
            Some(rich) => {
                let markup = text::same(snap.mime.as_str(), MIME_HTML);
                let alt = match snap.text() {
                    Some(t) => if markup && text::same(t, rich.html.as_str()) {
                        None
                    } else {
                        Some(t.to_owned())
                    },
                    None => None,
                };
                proof {
                    encode_utf8_decode_utf8(rich.html@);
                    if snap@.text() is Some {
                        decode_utf8_encode_utf8(snap@.bytes);
                    }
                    assert(opt_view(alt) == plain_form(snap@, rich.html@));
                }
                Some(
                    Message::ClipboardHtml {
                        html: rich.html.clone(),
                        alt,
                        sha256: rich.sha256.clone(),
                        origin: origin.clone(),
                    },
                )
            },
        }
    } else if text::starts_with(snap.mime.as_str(), "text/") && cfg.sync_text {
        Some(
            Message::ClipboardText {
                mime: snap.mime.clone(),
                content: encoding::utf8_lossy(snap.bytes.as_slice()),
                origin: origin.clone(),
                sha256: snap.sha256.clone(),
            },
        )
    } else {
        None
    }
}

/// The change that a peer's message tells of. An image that is not valid base64 tells
/// of none.
pub open spec fn event_of(m: MessageView) -> Option<SnapshotView> {
    match m {
        MessageView::ClipboardText { mime, content, origin, sha256 } => Some(
            SnapshotView { mime, bytes: encode_utf8(content), sha256, rich: None },
        ),
        MessageView::ClipboardImage { mime, data_b64, width, height, sha256, origin } =>
            match encoding::unbase64(data_b64) {
            Some(bytes) => Some(SnapshotView { mime, bytes, sha256, rich: None }),
            None => None,
        },
        MessageView::ClipboardHtml { html, alt, sha256, origin } => Some(
            SnapshotView {
                mime: MIME_HTML@,
                bytes: encode_utf8(
                    match alt {
                        Some(a) => a,
                        None => html,
                    },
                ),
                sha256,
                rich: Some(RichView { html, sha256 }),
            },
        ),
        _ => None,
    }
}

/// The change that a peer's message tells of, if it carries clipboard content.
pub fn message_to_event(m: &Message) -> (r: Option<ClipboardEvent>)
    ensures
        match r {
            Some(event) => event_of(m@) is Some && event@ == EventView::Changed(
                event_of(m@)->Some_0,
            ),
            None => event_of(m@) is None,
        },
{
    match m {
        Message::ClipboardText { mime, content, origin: _, sha256 } => {
            let snap = ClipboardSnapshot::new_text(
                mime.as_str(),
                encoding::text_bytes(content.as_str()),
                sha256.clone(),
            );
            Some(ClipboardEvent::Changed(Box::new(snap)))
        },
        Message::ClipboardImage { mime, data_b64, width: _, height: _, sha256, origin: _ } =>
            match encoding::decode_base64(data_b64.as_str()) {
            Some(bytes) => {
                let snap = ClipboardSnapshot::new_image(mime.as_str(), bytes, sha256.clone());
                Some(ClipboardEvent::Changed(Box::new(snap)))
            },
            None => None,
        },
        Message::ClipboardHtml { html, alt, sha256, origin: _ } => {
            let snap = ClipboardSnapshot::new_html(
                html.clone(),
                crate::protocol::clone_text(alt),
                sha256.clone(),
            );
            Some(ClipboardEvent::Changed(Box::new(snap)))
        },
        _ => None,
    }
}

/// An image that is sent arrives as it was.
pub proof fn law_images_arrive(snap: SnapshotView, cfg: ClipboardConfig, origin: Seq<char>)
    requires
        is_image(snap.mime),
        cfg.sync_images,
    ensures
        message_of(snap, cfg, origin) is Some,
        event_of(message_of(snap, cfg, origin)->Some_0) == Some(SnapshotView { rich: None, ..snap }),
{
    encoding::law_base64_round_trip(snap.bytes);
}

/// Text that is sent arrives as it was, where it is valid UTF-8.
pub proof fn law_text_arrives(snap: SnapshotView, cfg: ClipboardConfig, origin: Seq<char>)
    requires
        is_text(snap.mime),
        !is_image(snap.mime),
        cfg.sync_text,
        !cfg.sync_html,
        valid_utf8(snap.bytes),
    ensures
        message_of(snap, cfg, origin) is Some,
        event_of(message_of(snap, cfg, origin)->Some_0) == Some(SnapshotView { rich: None, ..snap }),
{
    decode_utf8_encode_utf8(snap.bytes);
}

/// Markup that is sent arrives as it was, with its digest and its plain form.
pub proof fn law_markup_arrives(snap: SnapshotView, cfg: ClipboardConfig, origin: Seq<char>)
    requires
        !is_image(snap.mime),
        cfg.sync_html,
        snap.rich is Some,
    ensures
        message_of(snap, cfg, origin) is Some,
        ({
            let got = event_of(message_of(snap, cfg, origin)->Some_0);
            &&& got is Some
            &&& got->Some_0.rich == snap.rich
            &&& got->Some_0.sha256 == snap.rich->Some_0.sha256
            &&& snap.text() is Some ==> got->Some_0.bytes == snap.bytes
        }),
{
    if snap.text() is Some {
        decode_utf8_encode_utf8(snap.bytes);
    }
}

/// Markup alone is sent without a plain form, and arrives as markup alone.
pub proof fn law_markup_alone_has_no_plain_form(
    html: Seq<char>,
    sha256: Seq<char>,
    cfg: ClipboardConfig,
    origin: Seq<char>,
)
    requires
        cfg.sync_html,
    ensures
        ({
            let snap = SnapshotView {
                mime: MIME_HTML@,
                bytes: encode_utf8(html),
                sha256,
                rich: Some(RichView { html, sha256 }),
            };
            let m = MessageView::ClipboardHtml { html, alt: None, sha256, origin };
            message_of(snap, cfg, origin) == Some(m) && event_of(m) == Some(snap)
        }),
{
    reveal_strlit("image/");
    reveal_strlit("text/html");
    assert("image/"@[0] != MIME_HTML@[0]);
}

/// What is sent carries the sender as its origin.
pub proof fn law_sent_under_own_origin(snap: SnapshotView, cfg: ClipboardConfig, origin: Seq<char>)
    requires
        message_of(snap, cfg, origin) is Some,
    ensures
        message_of(snap, cfg, origin)->Some_0.origin() == Some(origin),
        message_of(snap, cfg, origin)->Some_0.is_clipboard(),
{
}

/// What is done next to put a peer's content on the clipboard.
#[derive(Debug)]
pub enum ApplyStep {
    /// Nothing more.
    Done,
    /// Carry out the write. Where it fails and there is a plain form, go on with that.
    Write { pending: PendingWrite, fallback: Option<String> },
}

/// The contents of an `ApplyStep`.
pub enum ApplyView {
    Done,
    Write { pending: WriteView, fallback: Option<Seq<char>> },
}

impl View for ApplyStep {
    type V = ApplyView;

    open spec fn view(&self) -> ApplyView {
        match *self {
            ApplyStep::Done => ApplyView::Done,
            ApplyStep::Write { pending, fallback } => ApplyView::Write {
                pending: pending@,
                fallback: opt_view(fallback),
            },
        }
    }
}

/// Writing plain text: without more ado where it cannot be written.
pub open spec fn plain_write(backend: BackendKind, content: Seq<char>) -> ApplyView {
    match write_begun(backend, MIME_TEXT@, encode_utf8(content), WriteOrigin::Remote) {
        Ok(pending) => ApplyView::Write { pending, fallback: None },
        Err(_) => ApplyView::Done,
    }
}

/// How a peer's content is put on the clipboard: markup as markup, or as plain text where
/// that fails; text as text; an image as an image; anything else not at all.
pub open spec fn apply_begun(backend: BackendKind, snap: SnapshotView) -> ApplyView {
    if snap.mime == MIME_HTML@ {
        match snap.rich {
            None => ApplyView::Done,
            Some(rich) => {
                let plain = match snap.text() {
                    Some(t) => t,
                    None => rich.html,
                };
                match write_begun(
                    backend,
                    MIME_HTML@,
                    encode_utf8(rich.html),
                    WriteOrigin::Remote,
                ) {
                    Ok(pending) => ApplyView::Write { pending, fallback: Some(plain) },
                    Err(_) => plain_write(backend, plain),
                }
            },
        }
    } else if is_text(snap.mime) {
        plain_write(
            backend,
            match snap.text() {
                Some(t) => t,
                None => ""@,
            },
        )
    } else if is_image(snap.mime) {
        match write_begun(backend, snap.mime, snap.bytes, WriteOrigin::Remote) {
            Ok(pending) => ApplyView::Write { pending, fallback: None },
            Err(_) => ApplyView::Done,
        }
    } else {
        ApplyView::Done
    }
}

fn write_plain(content: &str, cm: &ClipboardManager) -> (r: ApplyStep)
    ensures
        r@ == plain_write(cm@.backend, content@),
{
    match cm.write_text(content, WriteOrigin::Remote) {
        Ok(pending) => ApplyStep::Write { pending, fallback: None },
        Err(_) => ApplyStep::Done,
    }
}

/// Begins to put a peer's content on the clipboard.
pub fn apply_peer_snapshot(snap: &ClipboardSnapshot, cm: &ClipboardManager) -> (r: ApplyStep)
    ensures
        r@ == apply_begun(cm@.backend, snap@),
{
    if text::same(snap.mime.as_str(), MIME_HTML) {
        match &snap.rich {
            None => ApplyStep::Done,
            Some(rich) => {
                let plain = match snap.text() {
                    Some(t) => t.to_owned(),
                    None => rich.html.clone(),
                };
                match cm.write_html(rich.html.as_str(), WriteOrigin::Remote) {
                    Ok(pending) => ApplyStep::Write { pending, fallback: Some(plain) },
                    Err(_) => write_plain(plain.as_str(), cm),
                }
            },
        }
    } else if text::starts_with(snap.mime.as_str(), "text/") {
        match snap.text() {
            Some(t) => write_plain(t, cm),
            None => write_plain("", cm),
        }
    } else if text::starts_with(snap.mime.as_str(), "image/") {
        match cm.write_image(snap.mime.as_str(), snap.bytes.as_slice(), WriteOrigin::Remote) {
            Ok(pending) => ApplyStep::Write { pending, fallback: None },
            Err(_) => ApplyStep::Done,
        }
    } else {
        ApplyStep::Done
    }
}

/// Goes on after a write that failed: with the plain form, where there is one.
pub fn apply_fallback(fallback: &Option<String>, cm: &ClipboardManager) -> (r: ApplyStep)
    ensures
        r@ == match *fallback {
            Some(t) => plain_write(cm@.backend, t@),
            None => ApplyView::Done,
        },
{
    match fallback {
        Some(t) => write_plain(t.as_str(), cm),
        None => ApplyStep::Done,
    }
}

/// What is sent of a snapshot: an image whole, in base64, under its type and digest, where
/// images are sent; else markup where markup is sent; else text. Nothing is sent of a sort
/// that is switched off, and what is sent names its sender.
pub proof fn law_what_is_sent(
    snap: &ClipboardSnapshot,
    cfg: &ClipboardConfig,
    origin: &DeviceId,
    r: Option<Message>,
)
    requires
        call_ensures(event_to_message, (snap, cfg, origin), r),
    ensures
        names_image(snap.mime@) && cfg.sync_images ==> r is Some && r->Some_0 is ClipboardImage && {
            let m = r->Some_0@;
            &&& m->ClipboardImage_mime == snap.mime@
            &&& m->data_b64 == encoding::base64_of(snap.bytes@)
            &&& m->ClipboardImage_sha256 == snap.sha256@
            &&& m->ClipboardImage_origin == origin.0@
            &&& m->width is None && m->height is None
        },
        names_image(snap.mime@) && !cfg.sync_images && !cfg.sync_html ==> r is None,
        !(names_image(snap.mime@) && cfg.sync_images) && cfg.sync_html ==> (r is Some
            <==> snap.rich is Some) && (r is Some ==> r->Some_0 is ClipboardHtml && {
            let m = r->Some_0@;
            &&& m->html == snap.rich->Some_0.html@
            &&& m->ClipboardHtml_sha256 == snap.rich->Some_0.sha256@
            &&& m->ClipboardHtml_origin == origin.0@
            &&& m->alt is Some ==> encode_utf8(m->alt->Some_0) == snap.bytes@
            &&& m->alt is None <==> !names_text(snap.mime@) || !valid_utf8(snap.bytes@) || (
            snap.mime@ == "text/html"@ && snap.bytes@ == encode_utf8(snap.rich->Some_0.html@))
        }),
        !names_image(snap.mime@) && !cfg.sync_html ==> (r is Some <==> names_text(snap.mime@)
            && cfg.sync_text) && (r is Some ==> r->Some_0 is ClipboardText && {
            let m = r->Some_0@;
            &&& m->ClipboardText_mime == snap.mime@
            &&& valid_utf8(snap.bytes@) ==> encode_utf8(m->content) == snap.bytes@
            &&& m->ClipboardText_sha256 == snap.sha256@
            &&& m->ClipboardText_origin == origin.0@
        }),
{
    lemma_names(snap.mime@);
    assert(snap@.mime == snap.mime@ && snap@.bytes == snap.bytes@);
    if valid_utf8(snap.bytes@) {
        decode_utf8_encode_utf8(snap.bytes@);
    }
    if snap.rich is Some {
        encode_utf8_decode_utf8(snap.rich->Some_0.html@);
    }
}

/// What arrives of a message: text as its bytes, an image as the bytes that its base64
/// stands for, markup with its plain form or itself; each under the type and the digest
/// that it came with. Base64 that stands for nothing, and any other message, is nothing.
pub proof fn law_what_arrives(m: Message, r: Option<ClipboardEvent>, bytes: Seq<u8>)
    requires
        call_ensures(message_to_event, (&m,), r),
    ensures
        r is Some ==> r->Some_0 is Changed,
        m is ClipboardText ==> r is Some && r->Some_0@ == EventView::Changed(
            SnapshotView {
                mime: m->ClipboardText_mime@,
                bytes: encode_utf8(m->content@),
                sha256: m->ClipboardText_sha256@,
                rich: None,
            },
        ),
        m is ClipboardImage && m->data_b64@ == encoding::base64_of(bytes) ==> r is Some
            && r->Some_0@ == EventView::Changed(
            SnapshotView {
                mime: m->ClipboardImage_mime@,
                bytes,
                sha256: m->ClipboardImage_sha256@,
                rich: None,
            },
        ),
        m is ClipboardImage && r is Some ==> r->Some_0@ is Changed && encoding::base64_of(
            r->Some_0@->Changed_0.bytes,
        ) == m->data_b64@,
        m is ClipboardHtml ==> r is Some && r->Some_0@ == EventView::Changed(
            SnapshotView {
                mime: "text/html"@,
                bytes: if m->alt is Some {
                    encode_utf8(m->alt->Some_0@)
                } else {
                    encode_utf8(m->html@)
                },
                sha256: m->ClipboardHtml_sha256@,
                rich: Some(RichView { html: m->html@, sha256: m->ClipboardHtml_sha256@ }),
            },
        ),
        !(m is ClipboardText || m is ClipboardImage || m is ClipboardHtml) ==> r is None,
{
    if m is ClipboardImage && m->data_b64@ == encoding::base64_of(bytes) {
        encoding::law_base64_round_trip(bytes);
    }
}

/// A peer's content is put on the clipboard as what it is: an image by the write of an image
/// of its type, text by the write of its text, markup by the write of markup with the plain
/// form to fall back to, each as a write for a peer. Anything else is left alone.
pub proof fn law_content_is_put_as_it_is(
    snap: &ClipboardSnapshot,
    cm: &ClipboardManager,
    r: ApplyStep,
    mime: &str,
    bytes: &[u8],
    content: &str,
    image: Result<PendingWrite, Error>,
    plain: Result<PendingWrite, Error>,
    markup: Result<PendingWrite, Error>,
)
    requires
        call_ensures(apply_peer_snapshot, (snap, cm), r),
        call_ensures(ClipboardManager::write_image, (cm, mime, bytes, WriteOrigin::Remote), image),
        call_ensures(ClipboardManager::write_text, (cm, content, WriteOrigin::Remote), plain),
        call_ensures(ClipboardManager::write_html, (cm, content, WriteOrigin::Remote), markup),
        mime@ == snap.mime@,
        bytes@ == snap.bytes@,
    ensures
        names_image(snap.mime@) ==> (r is Write <==> image is Ok) && (r is Write
            ==> r->pending@ == image->Ok_0@ && r->fallback is None),
        names_text(snap.mime@) && snap.mime@ != "text/html"@ && snap.bytes@ == encode_utf8(content@)
            ==> (r is Write <==> plain is Ok) && (r is Write ==> r->pending@ == plain->Ok_0@
            && r->fallback is None),
        snap.mime@ == "text/html"@ && snap.rich is None ==> r is Done,
        snap.mime@ == "text/html"@ && snap.rich is Some && snap.rich->Some_0.html@ == content@
            && markup is Ok ==> r is Write && r->pending@ == markup->Ok_0@ && r->fallback is Some
            && (valid_utf8(snap.bytes@) ==> encode_utf8(r->fallback->Some_0@) == snap.bytes@) && (
        !valid_utf8(snap.bytes@) ==> r->fallback->Some_0@ == content@),
        snap.mime@ == "text/html"@ && snap.rich is Some && snap.rich->Some_0.html@ == content@
            && markup is Err && snap.bytes@ == encode_utf8(content@) ==> (r is Write
            <==> plain is Ok) && (r is Write ==> r->pending@ == plain->Ok_0@),
        !names_image(snap.mime@) && !names_text(snap.mime@) ==> r is Done,
{
    lemma_names(snap.mime@);
    assert(snap@.mime == snap.mime@ && snap@.bytes == snap.bytes@);
    encode_utf8_decode_utf8(content@);
    vstd::utf8::encode_utf8_valid_utf8(content@);
    if valid_utf8(snap.bytes@) {
        decode_utf8_encode_utf8(snap.bytes@);
    }
    reveal_strlit("text/html");
    assert("text/html"@.take(5) =~= seq!['t', 'e', 'x', 't', '/']);
    assert(opt_view(r->fallback) is Some <==> r->fallback is Some);
}

/// Where markup could not be written, its plain form is written as text; where there is
/// none, that is the end.
pub proof fn law_fallback_is_plain_text(
    fallback: Option<String>,
    cm: &ClipboardManager,
    r: ApplyStep,
    content: &str,
    plain: Result<PendingWrite, Error>,
)
    requires
        call_ensures(apply_fallback, (&fallback, cm), r),
        call_ensures(ClipboardManager::write_text, (cm, content, WriteOrigin::Remote), plain),
    ensures
        fallback is None ==> r is Done,
        fallback is Some && fallback->Some_0@ == content@ ==> (r is Write <==> plain is Ok) && (
        r is Write ==> r->pending@ == plain->Ok_0@ && r->fallback is None),
{
    assert(opt_view(r->fallback) is Some <==> r->fallback is Some);
}

} // verus!
