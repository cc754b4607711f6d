//! The messages that devices exchange, and the identities that they carry.

use vstd::prelude::*;

use crate::entropy;

verus! {

/// Version of the application protocol, raised on incompatible changes.
pub const PROTOCOL_VERSION: u16 = 1;

/// A device's stable identifier.
#[derive(Debug, Hash)]
pub struct DeviceId(pub String);

impl View for DeviceId {
    type V = Seq<char>;

    open spec fn view(&self) -> Seq<char> {
        self.0@
    }
}

impl DeviceId {
    /// A fresh random identifier.
    pub fn new() -> (r: Self)
        ensures
            entropy::is_uuid(r@),
    {
        DeviceId(entropy::new_uuid())
    }

    pub fn as_str(&self) -> (r: &str)
        ensures
            r@ == self@,
    {
        self.0.as_str()
    }

    /// The identifier as it is shown.
    pub fn to_string(&self) -> (r: String)
        ensures
            r@ == self@,
    {
        self.0.clone()
    }
}

impl Default for DeviceId {
    fn default() -> (r: Self)
        ensures
            entropy::is_uuid(r@),
    {
        DeviceId::new()
    }
}

impl Clone for DeviceId {
    fn clone(&self) -> (r: Self)
        ensures
            r == *self,
    {
        DeviceId(self.0.clone())
    }
}

impl PartialEq for DeviceId {
    fn eq(&self, other: &Self) -> (r: bool) {
        self.0 == other.0
    }
}

impl Eq for DeviceId {

}

impl vstd::std_specs::cmp::PartialEqSpecImpl for DeviceId {
    open spec fn obeys_eq_spec() -> bool {
        true
    }

    open spec fn eq_spec(&self, other: &Self) -> bool {
        self@ == other@
    }
}

impl From<String> for DeviceId {
    fn from(s: String) -> (r: Self) {
        DeviceId(s)
    }
}

impl vstd::std_specs::convert::FromSpecImpl<String> for DeviceId {
    open spec fn obeys_from_spec() -> bool {
        true
    }

    open spec fn from_spec(s: String) -> Self {
        DeviceId(s)
    }
}

impl From<&str> for DeviceId {
    fn from(s: &str) -> (r: Self)
        ensures
            r@ == s@,
    {
        DeviceId(s.to_owned())
    }
}

impl vstd::std_specs::convert::FromSpecImpl<&str> for DeviceId {
    open spec fn obeys_from_spec() -> bool {
        false
    }

    open spec fn from_spec(s: &str) -> Self {
        choose|r: DeviceId| r@ == s@
    }
}

/// What sort of machine a device is.
#[derive(Debug, Clone, Copy, PartialEq, Eq, Hash, Structural)]
pub enum DeviceKind {
    Android,
    Linux,
    Macos,
    Windows,
    Ios,
    Other,
}

impl DeviceKind {
    pub fn is_mobile(&self) -> (r: bool)
        ensures
            r == (*self == DeviceKind::Android || *self == DeviceKind::Ios),
    {
        matches!(self, DeviceKind::Android | DeviceKind::Ios)
    }

    /// The name of the kind, as it is shown and sent.
    pub open spec fn label(self) -> Seq<char> {
        match self {
            DeviceKind::Android => "android"@,
            DeviceKind::Linux => "linux"@,
            DeviceKind::Macos => "macos"@,
            DeviceKind::Windows => "windows"@,
            DeviceKind::Ios => "ios"@,
            DeviceKind::Other => "other"@,
        }
    }

    pub fn to_string(&self) -> (r: String)
        ensures
            r@ == self.label(),
    {
        match self {
            DeviceKind::Android => "android".to_owned(),
            DeviceKind::Linux => "linux".to_owned(),
            DeviceKind::Macos => "macos".to_owned(),
            DeviceKind::Windows => "windows".to_owned(),
            DeviceKind::Ios => "ios".to_owned(),
            DeviceKind::Other => "other".to_owned(),
        }
    }
}

/// Which sorts of content a device takes part in.
#[derive(Debug, Clone, Copy, PartialEq, Eq, Structural)]
pub struct Capabilities {
    pub text: bool,
    pub html: bool,
    pub images: bool,
    pub files: bool,
}

impl Default for Capabilities {
    fn default() -> (r: Self)
        ensures
            r == (Capabilities { text: false, html: false, images: false, files: false }),
    {
        Capabilities { text: false, html: false, images: false, files: false }
    }
}

/// The contents of an optional text.
pub open spec fn opt_view(s: Option<String>) -> Option<Seq<char>> {
    match s {
        Some(t) => Some(t@),
        None => None,
    }
}

/// The contents of an optional identifier.
pub open spec fn opt_id(s: Option<DeviceId>) -> Option<Seq<char>> {
    match s {
        Some(t) => Some(t@),
        None => None,
    }
}

/// A copy of an optional text.
pub fn clone_text(s: &Option<String>) -> (r: Option<String>)
    ensures
        r == *s,
{
    match s {
        Some(t) => Some(t.clone()),
        None => None,
    }
}

/// A copy of an optional identifier.
pub fn clone_id(s: &Option<DeviceId>) -> (r: Option<DeviceId>)
    ensures
        r == *s,
{
    match s {
        Some(t) => Some(t.clone()),
        None => None,
    }
}

/// What a device says of itself in its first message.
#[derive(Debug)]
pub struct DeviceInfo {
    /// The identifier that pairing assigned, if the device has one.
    pub id: Option<DeviceId>,
    pub name: String,
    pub kind: DeviceKind,
    pub os_version: Option<String>,
    pub app_version: Option<String>,
    pub capabilities: Capabilities,
}

/// The contents of a `DeviceInfo`.
pub struct DeviceInfoView {
    pub id: Option<Seq<char>>,
    pub name: Seq<char>,
    pub kind: DeviceKind,
    pub os_version: Option<Seq<char>>,
    pub app_version: Option<Seq<char>>,
    pub capabilities: Capabilities,
}

impl View for DeviceInfo {
    type V = DeviceInfoView;

    open spec fn view(&self) -> DeviceInfoView {
        DeviceInfoView {
            id: opt_id(self.id),
            name: self.name@,
            kind: self.kind,
            os_version: opt_view(self.os_version),
            app_version: opt_view(self.app_version),
            capabilities: self.capabilities,
        }
    }
}

impl Clone for DeviceInfo {
    fn clone(&self) -> (r: Self)
        ensures
            r == *self,
    {
        DeviceInfo {
            id: clone_id(&self.id),
            name: self.name.clone(),
            kind: self.kind,
            os_version: clone_text(&self.os_version),
            app_version: clone_text(&self.app_version),
            capabilities: self.capabilities,
        }
    }
}

impl DeviceInfo {
    /// A device with a name and a kind, no identifier and no capability.
    pub fn new(name: &str, kind: DeviceKind) -> (r: Self)
        ensures
            r@ == (DeviceInfoView {
                id: None,
                name: name@,
                kind,
                os_version: None,
                app_version: None,
                capabilities: Capabilities { text: false, html: false, images: false, files: false },
            }),
    {
        DeviceInfo {
            id: None,
            name: name.to_owned(),
            kind,
            os_version: None,
            app_version: None,
            capabilities: Capabilities::default(),
        }
    }

    pub fn with_os_version(self, v: &str) -> (r: Self)
        ensures
            r@ == (DeviceInfoView { os_version: Some(v@), ..self@ }),
    {
        DeviceInfo { os_version: Some(v.to_owned()), ..self }
    }

    pub fn with_app_version(self, v: &str) -> (r: Self)
        ensures
            r@ == (DeviceInfoView { app_version: Some(v@), ..self@ }),
    {
        DeviceInfo { app_version: Some(v.to_owned()), ..self }
    }

    pub fn with_capabilities(self, caps: Capabilities) -> (r: Self)
        ensures
            r@ == (DeviceInfoView { capabilities: caps, ..self@ }),
    {
        DeviceInfo { capabilities: caps, ..self }
    }
}

/// Why pairing was refused.
#[derive(Debug, Clone, Copy, PartialEq, Eq, Structural)]
pub enum PairFailReason {
    InvalidCode,
    Expired,
    TooManyAttempts,
    Banned,
    Internal,
}

impl PairFailReason {
    /// The name of the reason, as it is shown and sent.
    pub open spec fn label(self) -> Seq<char> {
        match self {
            PairFailReason::InvalidCode => "invalid_code"@,
            PairFailReason::Expired => "expired"@,
            PairFailReason::TooManyAttempts => "too_many_attempts"@,
            PairFailReason::Banned => "banned"@,
            PairFailReason::Internal => "internal"@,
        }
    }

    pub fn to_string(&self) -> (r: String)
        ensures
            r@ == self.label(),
    {
        match self {
            PairFailReason::InvalidCode => "invalid_code".to_owned(),
            PairFailReason::Expired => "expired".to_owned(),
            PairFailReason::TooManyAttempts => "too_many_attempts".to_owned(),
            PairFailReason::Banned => "banned".to_owned(),
            PairFailReason::Internal => "internal".to_owned(),
        }
    }
}

/// A message of the protocol.
#[derive(Debug)]
pub enum Message {
    /// The first message of a connection, from the device that connects.
    Hello { v: u16, device: DeviceInfo },
    /// A pairing challenge. The code that answers it is shown on the daemon's side and
    /// never sent.
    PairChallenge { challenge_id: String, expires_at: i64, nonce: String },
    /// The code that the user typed, with the challenge that it answers.
    PairSubmit { challenge_id: String, code: String, nonce: String },
    /// The device is accepted under `device_id`.
    PairOk {
        device_id: DeviceId,
        server_id: Option<DeviceId>,
        session_id: String,
        server_name: String,
        capabilities: Capabilities,
    },
    PairFail { reason: PairFailReason, message: String },
    ClipboardText { mime: String, content: String, origin: DeviceId, sha256: String },
    ClipboardImage {
        mime: String,
        data_b64: String,
        width: Option<u32>,
        height: Option<u32>,
        sha256: String,
        origin: DeviceId,
    },
    ClipboardHtml { html: String, alt: Option<String>, sha256: String, origin: DeviceId },
    Ping { ts: i64 },
    Pong { ts: i64 },
    Error { code: String, message: String },
}

/// The contents of a `Message`.
pub enum MessageView {
    Hello { v: u16, device: DeviceInfoView },
    PairChallenge { challenge_id: Seq<char>, expires_at: i64, nonce: Seq<char> },
    PairSubmit { challenge_id: Seq<char>, code: Seq<char>, nonce: Seq<char> },
    PairOk {
        device_id: Seq<char>,
        server_id: Option<Seq<char>>,
        session_id: Seq<char>,
        server_name: Seq<char>,
        capabilities: Capabilities,
    },
    PairFail { reason: PairFailReason, message: Seq<char> },
    ClipboardText { mime: Seq<char>, content: Seq<char>, origin: Seq<char>, sha256: Seq<char> },
    ClipboardImage {
        mime: Seq<char>,
        data_b64: Seq<char>,
        width: Option<u32>,
        height: Option<u32>,
        sha256: Seq<char>,
        origin: Seq<char>,
    },
    ClipboardHtml {
        html: Seq<char>,
        alt: Option<Seq<char>>,
        sha256: Seq<char>,
        origin: Seq<char>,
    },
    Ping { ts: i64 },
    Pong { ts: i64 },
    Error { code: Seq<char>, message: Seq<char> },
}

impl View for Message {
    type V = MessageView;

    open spec fn view(&self) -> MessageView {
        match *self {
            Message::Hello { v, device } => MessageView::Hello { v, device: device@ },
            Message::PairChallenge { challenge_id, expires_at, nonce } =>
                MessageView::PairChallenge {
                challenge_id: challenge_id@,
                expires_at,
                nonce: nonce@,
            },
            Message::PairSubmit { challenge_id, code, nonce } => MessageView::PairSubmit {
                challenge_id: challenge_id@,
                code: code@,
                nonce: nonce@,
            },
            Message::PairOk { device_id, server_id, session_id, server_name, capabilities } =>
                MessageView::PairOk {
                device_id: device_id@,
                server_id: opt_id(server_id),
                session_id: session_id@,
                server_name: server_name@,
                capabilities,
            },
            Message::PairFail { reason, message } => MessageView::PairFail {
                reason,
                message: message@,
            },
            Message::ClipboardText { mime, content, origin, sha256 } =>
                MessageView::ClipboardText {
                mime: mime@,
                content: content@,
                origin: origin@,
                sha256: sha256@,
            },
            Message::ClipboardImage { mime, data_b64, width, height, sha256, origin } =>
                MessageView::ClipboardImage {
                mime: mime@,
                data_b64: data_b64@,
                width,
                height,
                sha256: sha256@,
                origin: origin@,
            },
            Message::ClipboardHtml { html, alt, sha256, origin } => MessageView::ClipboardHtml {
                html: html@,
                alt: opt_view(alt),
                sha256: sha256@,
                origin: origin@,
            },
            Message::Ping { ts } => MessageView::Ping { ts },
            Message::Pong { ts } => MessageView::Pong { ts },
            Message::Error { code, message } => MessageView::Error {
                code: code@,
                message: message@,
            },
        }
    }
}

impl Clone for Message {
    fn clone(&self) -> (r: Self)
        ensures
            r == *self,
    {
        match self {
            Message::Hello { v, device } => Message::Hello { v: *v, device: device.clone() },
            Message::PairChallenge { challenge_id, expires_at, nonce } => Message::PairChallenge {
                challenge_id: challenge_id.clone(),
                expires_at: *expires_at,
                nonce: nonce.clone(),
            },
            Message::PairSubmit { challenge_id, code, nonce } => Message::PairSubmit {
                challenge_id: challenge_id.clone(),
                code: code.clone(),
                nonce: nonce.clone(),
            },
            Message::PairOk { device_id, server_id, session_id, server_name, capabilities } =>
                Message::PairOk {
                device_id: device_id.clone(),
                server_id: clone_id(server_id),
                session_id: session_id.clone(),
                server_name: server_name.clone(),
                capabilities: *capabilities,
            },
            Message::PairFail { reason, message } => Message::PairFail {
                reason: *reason,
                message: message.clone(),
            },
            Message::ClipboardText { mime, content, origin, sha256 } => Message::ClipboardText {
                mime: mime.clone(),
                content: content.clone(),
                origin: origin.clone(),
                sha256: sha256.clone(),
            },
            Message::ClipboardImage { mime, data_b64, width, height, sha256, origin } =>
                Message::ClipboardImage {
                mime: mime.clone(),
                data_b64: data_b64.clone(),
                width: *width,
                height: *height,
                sha256: sha256.clone(),
                origin: origin.clone(),
            },
            Message::ClipboardHtml { html, alt, sha256, origin } => Message::ClipboardHtml {
                html: html.clone(),
                alt: clone_text(alt),
                sha256: sha256.clone(),
                origin: origin.clone(),
            },
            Message::Ping { ts } => Message::Ping { ts: *ts },
            Message::Pong { ts } => Message::Pong { ts: *ts },
            Message::Error { code, message } => Message::Error {
                code: code.clone(),
                message: message.clone(),
            },
        }
    }
}

impl MessageView {
    /// The discriminator that a message is sent under.
    pub open spec fn kind_name(self) -> Seq<char> {
        match self {
            MessageView::Hello { .. } => "hello"@,
            MessageView::PairChallenge { .. } => "pair_challenge"@,
            MessageView::PairSubmit { .. } => "pair_submit"@,
            MessageView::PairOk { .. } => "pair_ok"@,
            MessageView::PairFail { .. } => "pair_fail"@,
            MessageView::ClipboardText { .. } => "clipboard_text"@,
            MessageView::ClipboardImage { .. } => "clipboard_image"@,
            MessageView::ClipboardHtml { .. } => "clipboard_html"@,
            MessageView::Ping { .. } => "ping"@,
            MessageView::Pong { .. } => "pong"@,
            MessageView::Error { .. } => "error"@,
        }
    }

    /// Whether the message carries clipboard content.
    pub open spec fn is_clipboard(self) -> bool {
        self is ClipboardText || self is ClipboardImage || self is ClipboardHtml
    }

    /// The device that clipboard content is said to come from.
    pub open spec fn origin(self) -> Option<Seq<char>> {
        match self {
            MessageView::ClipboardText { origin, .. } => Some(origin),
            MessageView::ClipboardImage { origin, .. } => Some(origin),
            MessageView::ClipboardHtml { origin, .. } => Some(origin),
            _ => None,
        }
    }

    /// The message with the origin of its clipboard content replaced.
    pub open spec fn with_origin(self, id: Seq<char>) -> MessageView {
        match self {
            MessageView::ClipboardText { mime, content, origin, sha256 } =>
                MessageView::ClipboardText { mime, content, origin: id, sha256 },
            MessageView::ClipboardImage { mime, data_b64, width, height, sha256, origin } =>
                MessageView::ClipboardImage { mime, data_b64, width, height, sha256, origin: id },
            MessageView::ClipboardHtml { html, alt, sha256, origin } =>
                MessageView::ClipboardHtml { html, alt, sha256, origin: id },
            m => m,
        }
    }
}

impl Message {
    /// The discriminator that the message is sent under.
    pub fn kind_name(&self) -> (r: &'static str)
        ensures
            r@ == self@.kind_name(),
    {
        match self {
            Message::Hello { .. } => "hello",
            Message::PairChallenge { .. } => "pair_challenge",
            Message::PairSubmit { .. } => "pair_submit",
            Message::PairOk { .. } => "pair_ok",
            Message::PairFail { .. } => "pair_fail",
            Message::ClipboardText { .. } => "clipboard_text",
            Message::ClipboardImage { .. } => "clipboard_image",
            Message::ClipboardHtml { .. } => "clipboard_html",
            Message::Ping { .. } => "ping",
            Message::Pong { .. } => "pong",
            Message::Error { .. } => "error",
        }
    }

    /// The message with the origin of its clipboard content set to `id`, whatever the
    /// sender wrote there; other messages are unchanged.
    pub fn with_origin(self, id: &DeviceId) -> (r: Self)
        ensures
            r@ == self@.with_origin(id@),
    {
        match self {
            Message::ClipboardText { mime, content, origin: _, sha256 } => Message::ClipboardText {
                mime,
                content,
                origin: id.clone(),
                sha256,
            },
            Message::ClipboardImage { mime, data_b64, width, height, sha256, origin: _ } =>
                Message::ClipboardImage {
                mime,
                data_b64,
                width,
                height,
                sha256,
                origin: id.clone(),
            },
            Message::ClipboardHtml { html, alt, sha256, origin: _ } => Message::ClipboardHtml {
                html,
                alt,
                sha256,
                origin: id.clone(),
            },
            m => m,
        }
    }

    /// Whether the message carries clipboard content.
    pub fn is_clipboard(&self) -> (r: bool)
        ensures
            r == self@.is_clipboard(),
    {
        matches!(
            self,
            Message::ClipboardText { .. } | Message::ClipboardImage { .. } | Message::ClipboardHtml {
                ..
            }
        )
    }
}

/// The origin that the server sets is the one that stands, whatever was there before.
pub proof fn law_origin_is_authoritative(m: MessageView, forged: Seq<char>, id: Seq<char>)
    ensures
        m.with_origin(forged).with_origin(id) == m.with_origin(id),
        m.is_clipboard() ==> m.with_origin(id).origin() == Some(id),
        !m.is_clipboard() ==> m.with_origin(id) == m,
        m.with_origin(id).kind_name() == m.kind_name(),
{
}

/// Whether two messages are of one sort.
pub open spec fn same_sort(a: MessageView, b: MessageView) -> bool {
    ||| a is Hello && b is Hello
    ||| a is PairChallenge && b is PairChallenge
    ||| a is PairSubmit && b is PairSubmit
    ||| a is PairOk && b is PairOk
    ||| a is PairFail && b is PairFail
    ||| a is ClipboardText && b is ClipboardText
    ||| a is ClipboardImage && b is ClipboardImage
    ||| a is ClipboardHtml && b is ClipboardHtml
    ||| a is Ping && b is Ping
    ||| a is Pong && b is Pong
    ||| a is Error && b is Error
}

/// The names that messages are sent under.
pub open spec fn kind_names() -> Seq<Seq<char>> {
    seq![
        "hello"@,
        "pair_challenge"@,
        "pair_submit"@,
        "pair_ok"@,
        "pair_fail"@,
        "clipboard_text"@,
        "clipboard_image"@,
        "clipboard_html"@,
        "ping"@,
        "pong"@,
        "error"@,
    ]
}

/// A message's name is one of the known ones, depends on the message's sort alone, and
/// tells the sorts apart.
pub proof fn law_names_tell_messages_apart(a: MessageView, b: MessageView)
    ensures
        a.kind_name() == b.kind_name() <==> same_sort(a, b),
        kind_names().contains(a.kind_name()),
{
    reveal_strlit("hello");
    reveal_strlit("pair_challenge");
    reveal_strlit("pair_submit");
    reveal_strlit("pair_ok");
    reveal_strlit("pair_fail");
    reveal_strlit("clipboard_text");
    reveal_strlit("clipboard_image");
    reveal_strlit("clipboard_html");
    reveal_strlit("ping");
    reveal_strlit("pong");
    reveal_strlit("error");
    let n = kind_names();
    assert(n[0] == "hello"@ && n[1] == "pair_challenge"@ && n[2] == "pair_submit"@ && n[3]
        == "pair_ok"@ && n[4] == "pair_fail"@ && n[5] == "clipboard_text"@ && n[6]
        == "clipboard_image"@ && n[7] == "clipboard_html"@ && n[8] == "ping"@ && n[9] == "pong"@
        && n[10] == "error"@);
    assert("hello"@.len() == 5 && "pair_challenge"@.len() == 14 && "pair_submit"@.len() == 11
        && "pair_ok"@.len() == 7 && "pair_fail"@.len() == 9 && "clipboard_text"@.len() == 14
        && "clipboard_image"@.len() == 15 && "clipboard_html"@.len() == 14 && "ping"@.len() == 4
        && "pong"@.len() == 4 && "error"@.len() == 5);
    assert("hello"@[0] != "error"@[0]);
    assert("pair_challenge"@[0] != "clipboard_text"@[0]);
    assert("pair_challenge"@[0] != "clipboard_html"@[0]);
    assert("clipboard_text"@[10] != "clipboard_html"@[10]);
    assert("ping"@[1] != "pong"@[1]);
}

/// Whether `got` is the clipboard content `sent`, in every field, under the origin `id`.
pub open spec fn is_content_from(sent: MessageView, got: MessageView, id: Seq<char>) -> bool {
    ||| sent is ClipboardText && got is ClipboardText && got->ClipboardText_mime
        == sent->ClipboardText_mime && got->content == sent->content && got->ClipboardText_sha256
        == sent->ClipboardText_sha256 && got->ClipboardText_origin == id
    ||| sent is ClipboardImage && got is ClipboardImage && got->ClipboardImage_mime
        == sent->ClipboardImage_mime && got->data_b64 == sent->data_b64 && got->width == sent->width
        && got->height == sent->height && got->ClipboardImage_sha256 == sent->ClipboardImage_sha256
        && got->ClipboardImage_origin == id
    ||| sent is ClipboardHtml && got is ClipboardHtml && got->html == sent->html && got->alt
        == sent->alt && got->ClipboardHtml_sha256 == sent->ClipboardHtml_sha256
        && got->ClipboardHtml_origin == id
}

/// Setting the origin of clipboard content changes nothing but the origin: type, text,
/// image, measures, markup, plain form and digest stay. Any other message stays as it is.
pub proof fn law_origin_is_all_that_changes(m: Message, id: &DeviceId, r: Message)
    requires
        call_ensures(Message::with_origin, (m, id), r),
    ensures
        m is ClipboardText ==> r is ClipboardText && r->ClipboardText_mime@ == m->ClipboardText_mime@
            && r->content@ == m->content@ && r->ClipboardText_sha256@ == m->ClipboardText_sha256@
            && r->ClipboardText_origin.0@ == id.0@,
        m is ClipboardImage ==> r is ClipboardImage && r->ClipboardImage_mime@
            == m->ClipboardImage_mime@ && r->data_b64@ == m->data_b64@ && r->width == m->width
            && r->height == m->height && r->ClipboardImage_sha256@ == m->ClipboardImage_sha256@
            && r->ClipboardImage_origin.0@ == id.0@,
        m is ClipboardHtml ==> r is ClipboardHtml && r->html@ == m->html@ && (r->alt is Some
            <==> m->alt is Some) && (r->alt is Some ==> r->alt->Some_0@ == m->alt->Some_0@)
            && r->ClipboardHtml_sha256@ == m->ClipboardHtml_sha256@ && r->ClipboardHtml_origin.0@
            == id.0@,
        !(m is ClipboardText || m is ClipboardImage || m is ClipboardHtml) ==> r@ == m@,
        m is ClipboardText || m is ClipboardImage || m is ClipboardHtml ==> is_content_from(
            m@,
            r@,
            id@,
        ),
{
}

/// Setting the origin twice is setting it once, to the second: what a sender wrote there
/// leaves no trace.
pub proof fn law_last_origin_stays(
    m: Message,
    a: &DeviceId,
    b: &DeviceId,
    once: Message,
    twice: Message,
    direct: Message,
)
    requires
        call_ensures(Message::with_origin, (m, a), once),
        call_ensures(Message::with_origin, (once, b), twice),
        call_ensures(Message::with_origin, (m, b), direct),
    ensures
        twice@ == direct@,
{
}

/// The name that a message goes by on the wire, sort by sort.
pub proof fn law_wire_names(m: Message, r: &'static str)
    requires
        call_ensures(Message::kind_name, (&m,), r),
    ensures
        m is Hello ==> r@ == "hello"@,
        m is PairChallenge ==> r@ == "pair_challenge"@,
        m is PairSubmit ==> r@ == "pair_submit"@,
        m is PairOk ==> r@ == "pair_ok"@,
        m is PairFail ==> r@ == "pair_fail"@,
        m is ClipboardText ==> r@ == "clipboard_text"@,
        m is ClipboardImage ==> r@ == "clipboard_image"@,
        m is ClipboardHtml ==> r@ == "clipboard_html"@,
        m is Ping ==> r@ == "ping"@,
        m is Pong ==> r@ == "pong"@,
        m is Error ==> r@ == "error"@,
{
}

/// Clipboard content is text, images and markup, and nothing else.
pub proof fn law_clipboard_content(m: Message, r: bool)
    requires
        call_ensures(Message::is_clipboard, (&m,), r),
    ensures
        r <==> m is ClipboardText || m is ClipboardImage || m is ClipboardHtml,
{
}

/// The name that a device's sort goes by, and that a refusal's reason goes by.
pub proof fn law_labels(k: DeviceKind, f: PairFailReason, kind: String, reason: String)
    requires
        call_ensures(DeviceKind::to_string, (&k,), kind),
        call_ensures(PairFailReason::to_string, (&f,), reason),
    ensures
        k == DeviceKind::Android ==> kind@ == "android"@,
        k == DeviceKind::Linux ==> kind@ == "linux"@,
        k == DeviceKind::Macos ==> kind@ == "macos"@,
        k == DeviceKind::Windows ==> kind@ == "windows"@,
        k == DeviceKind::Ios ==> kind@ == "ios"@,
        k == DeviceKind::Other ==> kind@ == "other"@,
        f == PairFailReason::InvalidCode ==> reason@ == "invalid_code"@,
        f == PairFailReason::Expired ==> reason@ == "expired"@,
        f == PairFailReason::TooManyAttempts ==> reason@ == "too_many_attempts"@,
        f == PairFailReason::Banned ==> reason@ == "banned"@,
        f == PairFailReason::Internal ==> reason@ == "internal"@,
{
}

} // verus!
