//! The other end of a connection: a device that greets a daemon, pairs with it and
//! exchanges text.

use vstd::prelude::*;
use vstd::utf8::encode_utf8;

use crate::clipboard::{sha256_hex, MIME_TEXT};
use crate::hashing;
use crate::protocol::{
    Capabilities, DeviceId, DeviceInfo, DeviceInfoView, DeviceKind, Message, MessageView,
    PROTOCOL_VERSION,
};
use crate::text;
use crate::transport::{Frame, Incoming};

verus! {

/// Where a daemon is looked for by default.
pub const DEFAULT_URL: &'static str = "ws://127.0.0.1:8765/ws";

/// The first message of a client that exchanges text only and has no identifier yet.
pub fn hello(name: &str, kind: DeviceKind, app: &str) -> (r: Message)
    ensures
        r@ == (MessageView::Hello {
            v: PROTOCOL_VERSION,
            device: DeviceInfoView {
                id: None,
                name: name@,
                kind,
                os_version: None,
                app_version: Some(app@),
                capabilities: Capabilities { text: true, html: false, images: false, files: false },
            },
        }),
{
    let device = DeviceInfo::new(name, kind).with_app_version(app).with_capabilities(
        Capabilities { text: true, html: false, images: false, files: false },
    );
    Message::Hello { v: PROTOCOL_VERSION, device }
}

/// The address to connect to: the one given, the one of the environment, or the default.
pub fn resolve_url(given: Option<String>, environment: Option<String>) -> (r: String)
    ensures
        r@ == match given {
            Some(u) => u@,
            None => match environment {
                Some(u) => u@,
                None => DEFAULT_URL@,
            },
        },
{
    match given {
        Some(u) => u,
        None => match environment {
            Some(u) => u,
            None => DEFAULT_URL.to_owned(),
        },
    }
}

/// What sort of machine a client of that operating system says it is.
pub fn device_kind(os: &str) -> (r: DeviceKind)
    ensures
        r == if os@ == "macos"@ {
            DeviceKind::Macos
        } else if os@ == "windows"@ {
            DeviceKind::Windows
        } else {
            DeviceKind::Other
        },
{
    if text::same(os, "macos") {
        DeviceKind::Macos
    } else if text::same(os, "windows") {
        DeviceKind::Windows
    } else {
        DeviceKind::Other
    }
}

/// Who waits for a message.
#[derive(Debug, Clone, Copy, PartialEq, Eq, Structural)]
pub enum Style {
    /// The desktop client.
    Desktop,
    /// The reference client, which is always a new device.
    Reference,
    /// The daemon, on a connection that it opened.
    Daemon,
}

impl Style {
    /// What is said when the connection is gone.
    pub open spec fn ended(self) -> Seq<char> {
        match self {
            Style::Reference => "conexão fechada pelo servidor"@,
            _ => "conexão fechada"@,
        }
    }

    /// What is said before the reason why reading failed.
    pub open spec fn failed(self) -> Seq<char> {
        match self {
            Style::Reference => "erro de websocket: "@,
            _ => ""@,
        }
    }

    /// What is said before the reason why a text is no message.
    pub open spec fn json(self) -> Seq<char> {
        match self {
            Style::Reference => "JSON inválido do servidor: "@,
            _ => ""@,
        }
    }

    /// What is said when the other end closed.
    pub open spec fn closed(self) -> Seq<char> {
        match self {
            Style::Desktop => "conexão fechada durante handshake"@,
            Style::Reference => "conexão fechada pelo servidor"@,
            Style::Daemon => "conexão fechada"@,
        }
    }

    /// What is said of a binary frame.
    pub open spec fn binary(self) -> Seq<char> {
        match self {
            Style::Desktop => "frame inesperado"@,
            _ => "frame binário inesperado"@,
        }
    }
}

/// What the wait for a message comes to.
#[derive(Debug)]
pub enum Wait {
    Message(Message),
    /// Answer a ping of the transport itself, and wait on.
    Pong,
    Again,
    Failed(String),
}

/// The contents of a `Wait`.
pub enum WaitView {
    Message(MessageView),
    Pong,
    Again,
    Failed(Seq<char>),
}

impl View for Wait {
    type V = WaitView;

    open spec fn view(&self) -> WaitView {
        match *self {
            Wait::Message(m) => WaitView::Message(m@),
            Wait::Pong => WaitView::Pong,
            Wait::Again => WaitView::Again,
            Wait::Failed(e) => WaitView::Failed(e@),
        }
    }
}

/// What the wait for a message comes to after `item`.
pub open spec fn wait_of(item: Incoming, style: Style) -> WaitView {
    match item {
        Incoming::Ended => WaitView::Failed(style.ended()),
        Incoming::Failed(e) => WaitView::Failed(style.failed() + e@),
        Incoming::Frame(frame) => match frame {
            Frame::Text { size, message: Ok(m) } => WaitView::Message(m@),
            Frame::Text { size, message: Err(e) } => WaitView::Failed(style.json() + e@),
            Frame::Ping { size } => WaitView::Pong,
            Frame::Pong { size } => WaitView::Again,
            Frame::Close => WaitView::Failed(style.closed()),
            Frame::Binary { size } => WaitView::Failed(style.binary()),
        },
    }
}

/// Takes in what came while a message is waited for.
pub fn receive(item: Incoming, style: Style) -> (r: Wait)
    ensures
        r@ == wait_of(item, style),
{
    match item {
        Incoming::Ended => Wait::Failed(
            match style {
                Style::Reference => "conexão fechada pelo servidor".to_owned(),
                _ => "conexão fechada".to_owned(),
            },
        ),
        Incoming::Failed(e) => Wait::Failed(
            match style {
                Style::Reference => text::join("erro de websocket: ", e.as_str()),
                _ => text::join("", e.as_str()),
            },
        ),
        Incoming::Frame(frame) => match frame {
            Frame::Text { size: _, message } => match message {
                Ok(m) => Wait::Message(m),
                Err(e) => Wait::Failed(
                    match style {
                        Style::Reference => text::join("JSON inválido do servidor: ", e.as_str()),
                        _ => text::join("", e.as_str()),
                    },
                ),
            },
            Frame::Ping { size: _ } => Wait::Pong,
            Frame::Pong { size: _ } => Wait::Again,
            Frame::Close => Wait::Failed(
                match style {
                    Style::Desktop => "conexão fechada durante handshake".to_owned(),
                    Style::Reference => "conexão fechada pelo servidor".to_owned(),
                    Style::Daemon => "conexão fechada".to_owned(),
                },
            ),
            Frame::Binary { size: _ } => Wait::Failed(
                match style {
                    Style::Desktop => "frame inesperado".to_owned(),
                    _ => "frame binário inesperado".to_owned(),
                },
            ),
        },
    }
}

/// The code that was typed: what was given, else the line that was read, without the
/// space around it; none where that is empty.
pub fn typed_pin(given: Option<String>, line: &str) -> (r: Option<String>)
    ensures
        match given {
            Some(p) => r matches Some(q) && q@ == p@,
            None => {
                &&& r is Some == (text::trim_of(line@).len() > 0)
                &&& r matches Some(q) ==> q@ == text::trim_of(line@)
            },
        },
{
    match given {
        Some(p) => Some(p),
        None => {
            let t = text::trim(line);
            if t.as_str().unicode_len() == 0 {
                None
            } else {
                Some(t)
            }
        },
    }
}

/// Where a client's handshake stands.
#[derive(Debug)]
pub enum HandshakePhase {
    /// The first message is sent; its answer is waited for.
    Greeted,
    /// A code is wanted.
    Challenged { challenge_id: String, nonce: String },
    /// The code is sent; what became of it is waited for.
    Submitted,
    Paired(DeviceId),
    Failed,
}

/// The contents of a `HandshakePhase`.
pub enum HandshakeView {
    Greeted,
    Challenged { challenge_id: Seq<char>, nonce: Seq<char> },
    Submitted,
    Paired(Seq<char>),
    Failed,
}

impl View for HandshakePhase {
    type V = HandshakeView;

    open spec fn view(&self) -> HandshakeView {
        match *self {
            HandshakePhase::Greeted => HandshakeView::Greeted,
            HandshakePhase::Challenged { challenge_id, nonce } => HandshakeView::Challenged {
                challenge_id: challenge_id@,
                nonce: nonce@,
            },
            HandshakePhase::Submitted => HandshakeView::Submitted,
            HandshakePhase::Paired(id) => HandshakeView::Paired(id@),
            HandshakePhase::Failed => HandshakeView::Failed,
        }
    }
}

/// What a client does next in its handshake.
#[derive(Debug)]
pub enum HandshakeStep {
    Wait,
    /// Answer a ping of the transport itself.
    Pong,
    /// Ask for the code, which is good until that second.
    NeedPin { expires_at: i64 },
    Paired(DeviceId),
    Failed(String),
}

/// The contents of a `HandshakeStep`.
pub enum HandshakeStepView {
    Wait,
    Pong,
    NeedPin { expires_at: i64 },
    Paired(Seq<char>),
    Failed(Seq<char>),
}

impl View for HandshakeStep {
    type V = HandshakeStepView;

    open spec fn view(&self) -> HandshakeStepView {
        match *self {
            HandshakeStep::Wait => HandshakeStepView::Wait,
            HandshakeStep::Pong => HandshakeStepView::Pong,
            HandshakeStep::NeedPin { expires_at } => HandshakeStepView::NeedPin { expires_at },
            HandshakeStep::Paired(id) => HandshakeStepView::Paired(id@),
            HandshakeStep::Failed(e) => HandshakeStepView::Failed(e@),
        }
    }
}

/// A client's handshake: who it is and where it stands.
#[derive(Debug)]
pub struct Handshake {
    pub style: Style,
    pub phase: HandshakePhase,
}

/// The complaint of the reference client about a step of the handshake.
pub open spec fn complaint(step: Seq<char>, reason: Seq<char>) -> Seq<char> {
    "Falha em "@ + step + ": "@ + reason
}

fn complain(step: &str, reason: &str) -> (r: String)
    ensures
        r@ == complaint(step@, reason@),
{
    let mut t = text::join("Falha em ", step);
    t.append(": ");
    t.append(reason);
    t
}

/// The name of the message that a phase waits for.
pub open spec fn awaited(phase: HandshakeView) -> Seq<char> {
    if phase is Greeted {
        "pair_challenge"@
    } else {
        "pair_ok"@
    }
}

/// What a handshake does after the wait came to `w`, and where it then stands.
pub open spec fn handshake_after(style: Style, phase: HandshakeView, w: WaitView) -> (
    HandshakeView,
    HandshakeStepView,
) {
    if !(phase is Greeted || phase is Submitted) {
        (phase, HandshakeStepView::Wait)
    } else {
        match w {
            WaitView::Again => (phase, HandshakeStepView::Wait),
            WaitView::Pong => (phase, HandshakeStepView::Pong),
            WaitView::Failed(e) => (
                HandshakeView::Failed,
                HandshakeStepView::Failed(
                    if style == Style::Reference {
                        complaint(awaited(phase), e)
                    } else {
                        e
                    },
                ),
            ),
            WaitView::Message(m) => match m {
                MessageView::PairChallenge { challenge_id, expires_at, nonce } if phase is Greeted =>
                    (
                    HandshakeView::Challenged { challenge_id, nonce },
                    HandshakeStepView::NeedPin { expires_at },
                ),
                MessageView::PairOk {
                    device_id,
                    server_id,
                    session_id,
                    server_name,
                    capabilities,
                } if phase is Submitted || style != Style::Reference => (
                    HandshakeView::Paired(device_id),
                    HandshakeStepView::Paired(device_id),
                ),
                MessageView::PairFail { reason, message } if phase is Submitted => (
                    HandshakeView::Failed,
                    HandshakeStepView::Failed(
                        if style == Style::Reference {
                            "Pareamento falhou ("@ + reason.label() + "): "@ + message
                        } else {
                            "pareamento "@ + reason.label() + ": "@ + message
                        },
                    ),
                ),
                other => (
                    HandshakeView::Failed,
                    HandshakeStepView::Failed(
                        if style == Style::Reference {
                            complaint(awaited(phase), "recebeu "@ + other.kind_name())
                        } else if phase is Greeted {
                            "esperava desafio, recebi "@ + other.kind_name()
                        } else {
                            "esperava pair_ok, recebi "@ + other.kind_name()
                        },
                    ),
                ),
            },
        }
    }
}

impl Handshake {
    /// The handshake of a client that has sent its first message.
    pub fn new(style: Style) -> (r: Self)
        ensures
            r.style == style,
            r.phase@ == HandshakeView::Greeted,
    {
        Handshake { style, phase: HandshakePhase::Greeted }
    }

    /// Takes in what came. A message other than the one that is waited for ends the
    /// handshake.
    pub fn take(&mut self, item: Incoming) -> (r: HandshakeStep)
        ensures
            final(self).style == old(self).style,
            (final(self).phase@, r@) == handshake_after(
                old(self).style,
                old(self).phase@,
                wait_of(item, old(self).style),
            ),
    {
        let greeted = match &self.phase {
            HandshakePhase::Greeted => true,
            HandshakePhase::Submitted => false,
            _ => {
                return HandshakeStep::Wait;
            },
        };
        let reference = self.style == Style::Reference;
        let step = if greeted {
            "pair_challenge"
        } else {
            "pair_ok"
        };
        let m = match receive(item, self.style) {
            Wait::Again => {
                return HandshakeStep::Wait;
            },
            Wait::Pong => {
                return HandshakeStep::Pong;
            },
            Wait::Failed(e) => {
                self.phase = HandshakePhase::Failed;
                return HandshakeStep::Failed(
                    if reference {
                        complain(step, e.as_str())
                    } else {
                        e
                    },
                );
            },
            Wait::Message(m) => m,
        };
        match m {
            Message::PairChallenge { challenge_id, expires_at, nonce } if greeted => {
                self.phase = HandshakePhase::Challenged { challenge_id, nonce };
                HandshakeStep::NeedPin { expires_at }
            },
            Message::PairOk { device_id, .. } if !greeted || !reference => {
                self.phase = HandshakePhase::Paired(device_id.clone());
                HandshakeStep::Paired(device_id)
            },
            Message::PairFail { reason, message } if !greeted => {
                self.phase = HandshakePhase::Failed;
                let label = reason.to_string();
                let mut t = if reference {
                    text::join("Pareamento falhou (", label.as_str())
                } else {
                    text::join("pareamento ", label.as_str())
                };
                if reference {
                    t.append("): ");
                } else {
                    t.append(": ");
                }
                t.append(message.as_str());
                HandshakeStep::Failed(t)
            },
            other => {
                self.phase = HandshakePhase::Failed;
                HandshakeStep::Failed(
                    if reference {
                        complain(step, text::join("recebeu ", other.kind_name()).as_str())
                    } else if greeted {
                        text::join("esperava desafio, recebi ", other.kind_name())
                    } else {
                        text::join("esperava pair_ok, recebi ", other.kind_name())
                    },
                )
            },
        }
    }

    /// The message that answers the challenge with `code`, where there is one.
    pub fn submit(&mut self, code: &str) -> (r: Option<Message>)
        ensures
            final(self).style == old(self).style,
            match old(self).phase@ {
                HandshakeView::Challenged { challenge_id, nonce } => {
                    &&& r matches Some(m) && m@ == (MessageView::PairSubmit {
                        challenge_id,
                        code: code@,
                        nonce,
                    })
                    &&& final(self).phase@ == HandshakeView::Submitted
                },
                _ => r is None && final(self).phase == old(self).phase,
            },
    {
        let m = match &self.phase {
            HandshakePhase::Challenged { challenge_id, nonce } => Message::PairSubmit {
                challenge_id: challenge_id.clone(),
                code: code.to_owned(),
                nonce: nonce.clone(),
            },
            _ => {
                return None;
            },
        };
        self.phase = HandshakePhase::Submitted;
        Some(m)
    }
}

/// A client is paired only when the daemon says so: by `pair_ok`, and under the
/// identifier that it gives.
pub proof fn law_paired_by_the_daemon(style: Style, phase: HandshakeView, w: WaitView)
    requires
        phase is Greeted || phase is Submitted,
        handshake_after(style, phase, w).0 is Paired,
    ensures
        w is Message,
        w->Message_0 is PairOk,
        handshake_after(style, phase, w).0 == HandshakeView::Paired(w->Message_0->PairOk_device_id),
{
}

/// The message that sends `content` from device `origin`.
pub open spec fn text_message(content: Seq<char>, origin: Seq<char>) -> MessageView {
    MessageView::ClipboardText {
        mime: MIME_TEXT@,
        content,
        origin,
        sha256: hashing::hash_of(encode_utf8(content)),
    }
}

/// The message that sends `content` from device `origin`.
pub fn share_text(content: &str, origin: &DeviceId) -> (r: Message)
    ensures
        r@ == text_message(content@, origin@),
{
    Message::ClipboardText {
        mime: MIME_TEXT.to_owned(),
        content: content.to_owned(),
        origin: origin.clone(),
        sha256: sha256_hex(content.as_bytes()),
    }
}

/// A paired client's exchange of text: who it is, and the digest of what was last on its
/// clipboard.
#[derive(Debug)]
pub struct TextSync {
    device_id: DeviceId,
    last_hash: Option<String>,
}

/// The contents of a `TextSync`.
pub struct SyncView {
    pub device_id: Seq<char>,
    pub last_hash: Option<Seq<char>>,
}

impl View for TextSync {
    type V = SyncView;

    closed spec fn view(&self) -> SyncView {
        SyncView {
            device_id: self.device_id@,
            last_hash: match self.last_hash {
                Some(h) => Some(h@),
                None => None,
            },
        }
    }
}

/// The digest of a text, as it is sent with it.
pub open spec fn text_hash(s: Seq<char>) -> Seq<char> {
    hashing::hash_of(encode_utf8(s))
}

/// What the client does after something came.
#[derive(Debug)]
pub enum SyncAction {
    Nothing,
    /// Put the text on the clipboard.
    SetText(String),
    Reply(Message),
    /// Answer a ping of the transport itself.
    Pong,
    /// The daemon is done.
    Stop,
    Failed(String),
}

impl SyncView {
    /// Whether `content` on the clipboard is to be sent.
    pub open spec fn is_news(self, content: Seq<char>) -> bool {
        self.last_hash != Some(text_hash(content))
    }

    /// The exchange once `content` was on the clipboard.
    pub open spec fn after_reading(self, content: Option<Seq<char>>) -> SyncView {
        match content {
            Some(c) => SyncView { last_hash: Some(text_hash(c)), ..self },
            None => self,
        }
    }

    /// The exchange once `m` came.
    pub open spec fn after_message(self, m: MessageView) -> SyncView {
        match m {
            MessageView::ClipboardText { mime, content, origin, sha256 } => SyncView {
                last_hash: Some(sha256),
                ..self
            },
            _ => self,
        }
    }
}

/// Whether `action` is what `item` comes to.
pub open spec fn is_sync_action(item: Incoming, action: SyncAction) -> bool {
    match item {
        Incoming::Ended => action is Stop,
        Incoming::Failed(reason) => action matches SyncAction::Failed(e) && e@ == "websocket: "@
            + reason@,
        Incoming::Frame(frame) => match frame {
            Frame::Text { size, message: Err(reason) } => action matches SyncAction::Failed(e) && e@
                == "JSON inválido: "@ + reason@,
            Frame::Text { size, message: Ok(m) } => match m@ {
                MessageView::ClipboardText { mime, content, origin, sha256 } =>
                    action matches SyncAction::SetText(t) && t@ == content,
                MessageView::Ping { ts } => action matches SyncAction::Reply(reply) && reply@
                    == (MessageView::Pong { ts }),
                MessageView::Error { code, message } => if code == "superseded"@ {
                    action matches SyncAction::Failed(e) && e@ == message
                } else {
                    action is Nothing
                },
                _ => action is Nothing,
            },
            Frame::Ping { size } => action is Pong,
            Frame::Close => action is Stop,
            Frame::Pong { size } => action is Nothing,
            Frame::Binary { size } => action is Nothing,
        },
    }
}

impl TextSync {
    /// The exchange of the device `device_id`, whose clipboard holds `current`. What is
    /// there at first is not sent.
    pub fn new(device_id: DeviceId, current: Option<&str>) -> (r: Self)
        ensures
            r@ == (SyncView {
                device_id: device_id@,
                last_hash: match current {
                    Some(c) => Some(text_hash(c@)),
                    None => None,
                },
            }),
    {
        let last_hash = match current {
            Some(c) => Some(sha256_hex(c.as_bytes())),
            None => None,
        };
        TextSync { device_id, last_hash }
    }

    /// Takes in what the clipboard holds; the message to send where that is new.
    pub fn on_tick(&mut self, current: Option<&str>) -> (r: Option<Message>)
        ensures
            final(self)@ == old(self)@.after_reading(
                match current {
                    Some(c) => Some(c@),
                    None => None,
                },
            ),
            match current {
                None => r is None,
                Some(c) => if old(self)@.is_news(c@) {
                    r matches Some(m) && m@ == text_message(c@, old(self)@.device_id)
                } else {
                    r is None
                },
            },
    {
        match current {
            None => None,
            Some(c) => {
                let hash = sha256_hex(c.as_bytes());
                let known = match &self.last_hash {
                    Some(h) => text::same(h.as_str(), hash.as_str()),
                    None => false,
                };
                if known {
                    return None;
                }
                self.last_hash = Some(hash);
                Some(share_text(c, &self.device_id))
            },
        }
    }

    /// Takes in what came from the daemon. A text that is put on the clipboard counts as
    /// read from it, so that it is not sent back.
    pub fn on_incoming(&mut self, item: Incoming) -> (r: SyncAction)
        ensures
            is_sync_action(item, r),
            final(self)@ == match item {
                Incoming::Frame(Frame::Text { size, message: Ok(m) }) => old(self)@.after_message(
                    m@,
                ),
                _ => old(self)@,
            },
    {
        match item {
            Incoming::Ended => SyncAction::Stop,
            Incoming::Failed(e) => SyncAction::Failed(text::join("websocket: ", e.as_str())),
            Incoming::Frame(frame) => match frame {
                Frame::Text { size: _, message } => match message {
                    Err(e) => SyncAction::Failed(text::join("JSON inválido: ", e.as_str())),
                    Ok(m) => match m {
                        Message::ClipboardText { mime: _, content, origin: _, sha256 } => {
                            self.last_hash = Some(sha256);
                            SyncAction::SetText(content)
                        },
                        Message::Ping { ts } => SyncAction::Reply(Message::Pong { ts }),
                        Message::Error { code, message } => if text::same(
                            code.as_str(),
                            "superseded",
                        ) {
                            SyncAction::Failed(message)
                        } else {
                            SyncAction::Nothing
                        },
                        _ => SyncAction::Nothing,
                    },
                },
                Frame::Ping { size: _ } => SyncAction::Pong,
                Frame::Close => SyncAction::Stop,
                Frame::Pong { size: _ } => SyncAction::Nothing,
                Frame::Binary { size: _ } => SyncAction::Nothing,
            },
        }
    }
}

/// A text that the daemon sent with its true digest is not sent back when it is then read
/// from the clipboard.
pub proof fn law_received_text_is_not_sent_back(
    s: SyncView,
    content: Seq<char>,
    origin: Seq<char>,
)
    ensures
        !s.after_message(text_message(content, origin)).is_news(content),
{
}

/// A text that stays on the clipboard is sent once.
pub proof fn law_text_is_sent_once(s: SyncView, content: Seq<char>)
    ensures
        !s.after_reading(Some(content)).is_news(content),
{
}

/// What the reference client prints after something came.
#[derive(Debug)]
pub enum EchoAction {
    Nothing,
    Print(String),
    Complain(String),
    Reply(Message),
    /// Answer a ping of the transport itself.
    Pong,
    /// Print and leave.
    Leave(String),
    /// Leave with a complaint.
    Abort(String),
    /// Leave without a word.
    Quit,
}

/// Whether `action` is what `item` comes to in the reference client.
pub open spec fn is_echo(item: Incoming, action: EchoAction) -> bool {
    match item {
        Incoming::Ended => action is Quit,
        Incoming::Failed(reason) => action matches EchoAction::Abort(e) && e@
            == "Erro de websocket: "@ + reason@,
        Incoming::Frame(frame) => match frame {
            Frame::Text { size, message: Err(reason) } => action matches EchoAction::Complain(e)
                && e@ == "JSON inválido recebido: "@ + reason@,
            Frame::Text { size, message: Ok(m) } => match m@ {
                MessageView::ClipboardText { mime, content, origin, sha256 } =>
                    action matches EchoAction::Print(t) && t@ == "RECV ["@ + mime + "] "@ + content,
                MessageView::Ping { ts } => action matches EchoAction::Reply(reply) && reply@
                    == (MessageView::Pong { ts }),
                other => action matches EchoAction::Print(t) && t@ == "RECV "@ + other.kind_name(),
            },
            Frame::Ping { size } => action is Pong,
            Frame::Pong { size } => action is Nothing,
            Frame::Binary { size } => action matches EchoAction::Print(t) && t@
                == "RECV <binário>"@,
            Frame::Close => action matches EchoAction::Leave(t) && t@
                == "Servidor fechou a conexão"@,
        },
    }
}

/// Takes in what came to the reference client once it is paired.
pub fn echo(item: Incoming) -> (r: EchoAction)
    ensures
        is_echo(item, r),
{
    match item {
        Incoming::Ended => EchoAction::Quit,
        Incoming::Failed(e) => EchoAction::Abort(text::join("Erro de websocket: ", e.as_str())),
        Incoming::Frame(frame) => match frame {
            Frame::Text { size: _, message } => match message {
                Err(e) => EchoAction::Complain(text::join("JSON inválido recebido: ", e.as_str())),
                Ok(m) => match m {
                    Message::ClipboardText { mime, content, origin: _, sha256: _ } => {
                        let mut t = text::join("RECV [", mime.as_str());
                        t.append("] ");
                        t.append(content.as_str());
                        EchoAction::Print(t)
                    },
                    Message::Ping { ts } => EchoAction::Reply(Message::Pong { ts }),
                    other => EchoAction::Print(text::join("RECV ", other.kind_name())),
                },
            },
            Frame::Ping { size: _ } => EchoAction::Pong,
            Frame::Pong { size: _ } => EchoAction::Nothing,
            Frame::Binary { size: _ } => EchoAction::Print("RECV <binário>".to_owned()),
            Frame::Close => EchoAction::Leave("Servidor fechou a conexão".to_owned()),
        },
    }
}

/// What is on the clipboard is sent, whole and under this device's name, exactly where it is
/// not what was there last; then it is what was there last.
pub proof fn law_local_text_is_sent(
    s: &mut TextSync,
    current: &str,
    r: Option<Message>,
    again: &mut TextSync,
    second: Option<Message>,
)
    requires
        call_ensures(TextSync::on_tick, (s, Some(current)), r),
        *again == *final(s),
        call_ensures(TextSync::on_tick, (again, Some(current)), second),
    ensures
        ({
            let digest = crate::encoding::hex_of(hashing::sha256(encode_utf8(current@)));
            &&& r is Some <==> old(s)@.last_hash != Some(digest)
            &&& r is Some ==> r->Some_0@ == (MessageView::ClipboardText {
                mime: "text/plain;charset=utf-8"@,
                content: current@,
                origin: old(s)@.device_id,
                sha256: digest,
            })
        }),
        second is None,
        final(s)@.device_id == old(s)@.device_id,
{
}

/// A text that comes is put on the clipboard as it is, and is not sent back when it is then
/// read there, where it came with its own digest.
pub proof fn law_remote_text_is_put_and_not_returned(
    s: &mut TextSync,
    item: Incoming,
    action: SyncAction,
    after: &mut TextSync,
    current: &str,
    r: Option<Message>,
)
    requires
        call_ensures(TextSync::on_incoming, (s, item), action),
        *after == *final(s),
        call_ensures(TextSync::on_tick, (after, Some(current)), r),
        item is Frame,
        item->Frame_0 is Text,
        item->Frame_0->message is Ok,
        item->Frame_0->message->Ok_0 is ClipboardText,
        item->Frame_0->message->Ok_0->content@ == current@,
        item->Frame_0->message->Ok_0->ClipboardText_sha256@ == crate::encoding::hex_of(
            hashing::sha256(encode_utf8(current@)),
        ),
    ensures
        action is SetText,
        action->SetText_0@ == current@,
        r is None,
{
    let m = item->Frame_0->message->Ok_0;
    assert(m@ is ClipboardText);
}

/// What else comes to a client: a ping is answered with its own time, being replaced is an
/// error, the end is the end, and the rest is passed over.
pub proof fn law_other_news(s: &mut TextSync, item: Incoming, r: SyncAction)
    requires
        call_ensures(TextSync::on_incoming, (s, item), r),
    ensures
        item is Ended ==> r is Stop,
        item is Failed ==> r is Failed,
        item is Frame && item->Frame_0 is Close ==> r is Stop,
        item is Frame && item->Frame_0 is Ping ==> r is Pong,
        item is Frame && (item->Frame_0 is Pong || item->Frame_0 is Binary) ==> r is Nothing,
        item is Frame && item->Frame_0 is Text && item->Frame_0->message is Err ==> r is Failed,
        item is Frame && item->Frame_0 is Text && item->Frame_0->message is Ok ==> {
            let m = item->Frame_0->message->Ok_0;
            &&& m is Ping ==> r is Reply && r->Reply_0@ == (MessageView::Pong { ts: m->Ping_ts })
            &&& m is Error && m->Error_code@ == "superseded"@ ==> r is Failed && r->Failed_0@
                == m->Error_message@
            &&& r is SetText ==> m is ClipboardText
        },
{
    if item is Frame && item->Frame_0 is Text && item->Frame_0->message is Ok {
        let m = item->Frame_0->message->Ok_0;
        assert(m@ is Ping <==> m is Ping);
        assert(m@ is Error <==> m is Error);
        assert(m@ is ClipboardText <==> m is ClipboardText);
    }
}

/// A text is shared as what it is, under its sender and its digest.
pub proof fn law_sharing(content: &str, origin: &DeviceId, r: Message)
    requires
        call_ensures(share_text, (content, origin), r),
    ensures
        r is ClipboardText,
        r->content@ == content@ && r->ClipboardText_origin.0@ == origin.0@
            && r->ClipboardText_mime@ == "text/plain;charset=utf-8"@,
        r->ClipboardText_sha256@ == crate::encoding::hex_of(
            hashing::sha256(encode_utf8(content@)),
        ),
{
    assert(r@ is ClipboardText);
}

/// A challenge is answered with the code that was given, under the challenge's own identifier
/// and nonce.
pub proof fn law_answering(
    h: &mut Handshake,
    item: Incoming,
    step: HandshakeStep,
    challenged: &mut Handshake,
    code: &str,
    r: Option<Message>,
)
    requires
        call_ensures(Handshake::take, (h, item), step),
        *challenged == *final(h),
        call_ensures(Handshake::submit, (challenged, code), r),
        old(h).phase is Greeted,
        item is Frame,
        item->Frame_0 is Text,
        item->Frame_0->message is Ok,
        item->Frame_0->message->Ok_0 is PairChallenge,
    ensures
        step is NeedPin,
        step->expires_at == item->Frame_0->message->Ok_0->expires_at,
        r is Some,
        r->Some_0@ == (MessageView::PairSubmit {
            challenge_id: item->Frame_0->message->Ok_0->PairChallenge_challenge_id@,
            code: code@,
            nonce: item->Frame_0->message->Ok_0->PairChallenge_nonce@,
        }),
        final(challenged).phase is Submitted,
{
    assert(item->Frame_0->message->Ok_0@ is PairChallenge);
    assert(old(h).phase@ is Greeted);
    assert(final(h).phase@ is Challenged);
    assert(step@ is NeedPin);
    assert(final(challenged).phase@ is Submitted);
}

/// A client that has answered is paired by `pair_ok`, under the identifier that it gives, and
/// by nothing else; a refusal is the end.
pub proof fn law_being_paired(h: &mut Handshake, item: Incoming, r: HandshakeStep)
    requires
        call_ensures(Handshake::take, (h, item), r),
        old(h).phase is Submitted,
    ensures
        r is Paired <==> item is Frame && item->Frame_0 is Text && item->Frame_0->message is Ok
            && item->Frame_0->message->Ok_0 is PairOk,
        r is Paired ==> r->Paired_0.0@ == item->Frame_0->message->Ok_0->PairOk_device_id.0@
            && final(h).phase is Paired,
        item is Frame && item->Frame_0 is Text && item->Frame_0->message is Ok
            && item->Frame_0->message->Ok_0 is PairFail ==> r is Failed,
        item is Frame && item->Frame_0 is Ping ==> r is Pong && final(h).phase@ == old(h).phase@,
        item is Ended || item is Failed ==> r is Failed,
{
    assert(old(h).phase@ is Submitted);
    assert(r@ is Paired <==> r is Paired);
    assert(r@ is Failed <==> r is Failed);
    assert(r@ is Pong <==> r is Pong);
    assert(final(h).phase@ is Paired <==> final(h).phase is Paired);
    if item is Frame && item->Frame_0 is Text && item->Frame_0->message is Ok {
        let m = item->Frame_0->message->Ok_0;
        assert(m@ is PairOk <==> m is PairOk);
        assert(m@ is PairFail <==> m is PairFail);
    }
}

/// A client is a new device that takes part in text alone; its address is the one given, else
/// the environment's, else this machine's.
pub proof fn law_client_start(
    name: &str,
    kind: DeviceKind,
    app: &str,
    m: Message,
    given: Option<String>,
    environment: Option<String>,
    url: String,
    os: &str,
    sort: DeviceKind,
)
    requires
        call_ensures(hello, (name, kind, app), m),
        call_ensures(resolve_url, (given, environment), url),
        call_ensures(device_kind, (os,), sort),
    ensures
        m is Hello && m->v == 1,
        m->device@.id is None && m->device@.name == name@ && m->device@.kind == kind,
        m->device@.capabilities.text && !m->device@.capabilities.html
            && !m->device@.capabilities.images && !m->device@.capabilities.files,
        given is Some ==> url@ == given->Some_0@,
        given is None && environment is Some ==> url@ == environment->Some_0@,
        given is None && environment is None ==> url@ == "ws://127.0.0.1:8765/ws"@,
        os@ == "macos"@ ==> sort == DeviceKind::Macos,
        os@ == "windows"@ ==> sort == DeviceKind::Windows,
        os@ != "macos"@ && os@ != "windows"@ ==> sort == DeviceKind::Other,
{
    assert(m@ is Hello);
    reveal_strlit("macos");
    reveal_strlit("windows");
    assert("macos"@.len() != "windows"@.len());
}

/// The reference client prints every text that it gets, with its type, and answers a ping
/// with its own time.
pub proof fn law_echo(item: Incoming, r: EchoAction)
    requires
        call_ensures(echo, (item,), r),
        item is Frame,
        item->Frame_0 is Text,
        item->Frame_0->message is Ok,
    ensures
        ({
            let m = item->Frame_0->message->Ok_0;
            &&& m is ClipboardText ==> r is Print && r->Print_0@ == "RECV ["@
                + m->ClipboardText_mime@ + "] "@ + m->content@
            &&& m is Ping ==> r is Reply && r->Reply_0@ == (MessageView::Pong { ts: m->Ping_ts })
            &&& !(m is Ping) ==> r is Print
        }),
{
    let m = item->Frame_0->message->Ok_0;
    assert(m@ is ClipboardText <==> m is ClipboardText);
    assert(m@ is Ping <==> m is Ping);
}

/// The code is the one that was given, else the line that was typed but for the space around
/// it; a blank line is none.
pub proof fn law_typed_code(given: Option<String>, line: &str, r: Option<String>)
    requires
        call_ensures(typed_pin, (given, line), r),
    ensures
        given is Some ==> r is Some && r->Some_0@ == given->Some_0@,
        given is None ==> (r is Some <==> text::trim_of(line@).len() > 0) && (r is Some
            ==> r->Some_0@ == text::trim_of(line@)),
{
}

/// A client that waits takes the message that came, answers a ping, waits on after a pong, and
/// fails on anything else, with the reason where one was given.
pub proof fn law_waiting(item: Incoming, style: Style, r: Wait)
    requires
        call_ensures(receive, (item, style), r),
    ensures
        r is Message <==> item is Frame && item->Frame_0 is Text && item->Frame_0->message is Ok,
        r is Message ==> r->Message_0@ == item->Frame_0->message->Ok_0@,
        r is Pong <==> item is Frame && item->Frame_0 is Ping,
        r is Again <==> item is Frame && item->Frame_0 is Pong,
        item is Failed && style is Desktop ==> r is Failed && r->Failed_0@ == item->Failed_0@,
        item is Failed && style is Reference ==> r is Failed && r->Failed_0@
            == "erro de websocket: "@ + item->Failed_0@,
        item is Frame && item->Frame_0 is Text && item->Frame_0->message is Err && style is Desktop
            ==> r->Failed_0@ == item->Frame_0->message->Err_0@,
{
    reveal_strlit("");
    if item is Failed {
        assert(""@ + item->Failed_0@ =~= item->Failed_0@);
    }
    if item is Frame && item->Frame_0 is Text && item->Frame_0->message is Err {
        let e = item->Frame_0->message->Err_0@;
        assert(""@ + e =~= e);
    }
    assert(r@ is Message <==> r is Message);
    assert(r@ is Pong <==> r is Pong);
    assert(r@ is Again <==> r is Again);
}

/// A handshake that fails says why: the reference client what it waited for and what came
/// instead, the others what came alone; a refusal is told with its reason and its text.
pub proof fn law_failed_handshakes(h: &mut Handshake, item: Incoming, r: HandshakeStep, w: Wait)
    requires
        call_ensures(Handshake::take, (h, item), r),
        call_ensures(receive, (item, old(h).style), w),
        old(h).phase is Greeted || old(h).phase is Submitted,
    ensures
        final(h).style == old(h).style,
        w is Failed ==> r is Failed && final(h).phase is Failed,
        w is Failed && old(h).style is Reference && old(h).phase is Greeted ==> r->Failed_0@
            == "Falha em "@ + "pair_challenge"@ + ": "@ + w->Failed_0@,
        w is Failed && old(h).style is Reference && old(h).phase is Submitted ==> r->Failed_0@
            == "Falha em "@ + "pair_ok"@ + ": "@ + w->Failed_0@,
        w is Failed && !(old(h).style is Reference) ==> r->Failed_0@ == w->Failed_0@,
        w is Pong ==> r is Pong && final(h).phase@ == old(h).phase@,
        w is Again ==> r is Wait && final(h).phase@ == old(h).phase@,
        w is Message && w->Message_0 is PairFail && old(h).phase is Submitted ==> r is Failed && {
            let m = w->Message_0;
            &&& old(h).style is Reference ==> r->Failed_0@ == "Pareamento falhou ("@
                + m->reason.label() + "): "@ + m->PairFail_message@
            &&& !(old(h).style is Reference) ==> r->Failed_0@ == "pareamento "@ + m->reason.label()
                + ": "@ + m->PairFail_message@
        },
        w is Message && (w->Message_0 is Ping || w->Message_0 is Hello || w->Message_0
            is ClipboardText) ==> r is Failed && final(h).phase is Failed && {
            let kind = w->Message_0@.kind_name();
            &&& old(h).style is Reference && old(h).phase is Greeted ==> r->Failed_0@ == "Falha em "@
                + "pair_challenge"@ + ": "@ + ("recebeu "@ + kind)
            &&& old(h).style is Reference && old(h).phase is Submitted ==> r->Failed_0@
                == "Falha em "@ + "pair_ok"@ + ": "@ + ("recebeu "@ + kind)
            &&& !(old(h).style is Reference) && old(h).phase is Greeted ==> r->Failed_0@
                == "esperava desafio, recebi "@ + kind
            &&& !(old(h).style is Reference) && old(h).phase is Submitted ==> r->Failed_0@
                == "esperava pair_ok, recebi "@ + kind
        },
{
    assert(old(h).phase@ is Greeted <==> old(h).phase is Greeted);
    assert(old(h).phase@ is Submitted <==> old(h).phase is Submitted);
    assert(final(h).phase@ is Failed <==> final(h).phase is Failed);
    assert(r@ is Failed <==> r is Failed);
    assert(r@ is Pong <==> r is Pong);
    assert(r@ is Wait <==> r is Wait);
    assert(w@ is Failed <==> w is Failed);
    assert(w@ is Pong <==> w is Pong);
    assert(w@ is Again <==> w is Again);
    if w is Message {
        let m = w->Message_0;
        assert(m@ is PairFail <==> m is PairFail);
        assert(m@ is PairOk <==> m is PairOk);
        assert(m@ is PairChallenge <==> m is PairChallenge);
    }
}

/// What a client says of a connection that is closed, of a frame that it does not read and of
/// text that is no message, each client in its own words; a handshake that is over stays as it
/// is.
pub proof fn law_client_words(
    item: Incoming,
    style: Style,
    w: Wait,
    r: EchoAction,
    h: &mut Handshake,
    step: HandshakeStep,
)
    requires
        call_ensures(receive, (item, style), w),
        call_ensures(echo, (item,), r),
        call_ensures(Handshake::take, (h, item), step),
    ensures
        item is Ended ==> r is Quit && w is Failed && w->Failed_0@ == (if style is Reference {
            "conexão fechada pelo servidor"@
        } else {
            "conexão fechada"@
        }),
        item is Frame && item->Frame_0 is Close ==> w is Failed && w->Failed_0@ == (
        if style is Reference {
            "conexão fechada pelo servidor"@
        } else if style is Desktop {
            "conexão fechada durante handshake"@
        } else {
            "conexão fechada"@
        }),
        item is Frame && item->Frame_0 is Binary ==> w is Failed && w->Failed_0@ == (
        if style is Desktop {
            "frame inesperado"@
        } else {
            "frame binário inesperado"@
        }),
        item is Frame && item->Frame_0 is Text && item->Frame_0->message is Err && style
            is Reference ==> w is Failed && w->Failed_0@ == "JSON inválido do servidor: "@
            + item->Frame_0->message->Err_0@,
        item is Failed ==> r is Abort && r->Abort_0@ == "Erro de websocket: "@ + item->Failed_0@,
        item is Frame && item->Frame_0 is Ping ==> r is Pong,
        item is Frame && item->Frame_0 is Text && item->Frame_0->message is Err ==> r is Complain,
        !(old(h).phase is Greeted || old(h).phase is Submitted) ==> step is Wait && final(h).phase@ == old(h).phase@,
{
    assert(w@ is Failed <==> w is Failed);
    assert(step@ is Wait <==> step is Wait);
    assert(old(h).phase@ is Greeted <==> old(h).phase is Greeted);
    assert(old(h).phase@ is Submitted <==> old(h).phase is Submitted);
}

} // verus!
