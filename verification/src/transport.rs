//! One connection from its first message to its last: the greeting, pairing where the
//! device is not yet trusted, and the exchange of clipboard content.
//!
//! The caller reads frames and parses their JSON. Each frame is handed in, and what comes
//! back says what to send, to whom, and whether the connection goes on.

use vstd::prelude::*;
use vstd::utf8::encode_utf8;

use crate::clipboard::{ClipboardEvent, EventView};
use crate::clock;
use crate::config::ClipboardConfig;
use crate::dispatch;
use crate::encoding;
use crate::entropy;
use crate::error::{Error, ErrorView};
use crate::pairing::{
    expiry, is_fresh_device, is_nonce, is_pin, marked, PairingError, PairingView, TrustChange, Verdict,
    MAX_ATTEMPTS,
};
use crate::peer::PeerSession;
use crate::protocol::{
    is_content_from, opt_id, Capabilities, DeviceInfo, DeviceInfoView, Message, MessageView, PairFailReason,
    PROTOCOL_VERSION,
};
use crate::server::{IpAddress, ServerConfig};
use crate::state::{is_handle, is_session, own_id, PeerHandle, ServerState};
use crate::table;
use crate::text;

verus! {

/// The largest binary frame: 256 MiB.
pub const MAX_BINARY_FRAME: usize = 268_435_456;

/// How many seconds a connection has for its first message.
pub const HANDSHAKE_TIMEOUT: u64 = 15;

/// The longest time for pairing, in seconds, with which an expiry can still be told.
pub const MAX_PAIRING_SECS: u64 = 9_223_363_826_587_899_008;

/// A frame of a connection. Text comes with its size in bytes and the message it holds,
/// or why it holds none.
#[derive(Debug)]
pub enum Frame {
    Text { size: usize, message: Result<Message, String> },
    Binary { size: usize },
    Ping { size: usize },
    Pong { size: usize },
    Close,
}

/// What reading a connection gave.
#[derive(Debug)]
pub enum Incoming {
    Frame(Frame),
    Failed(String),
    /// The other end is gone.
    Ended,
}

impl Frame {
    /// How many bytes the frame counts for.
    pub open spec fn bytes(self) -> usize {
        match self {
            Frame::Text { size, .. } => size,
            Frame::Binary { size } => size,
            Frame::Ping { size } => size,
            Frame::Pong { size } => size,
            Frame::Close => 0,
        }
    }

    /// How many bytes the frame counts for.
    pub fn size(&self) -> (r: usize)
        ensures
            r == self.bytes(),
    {
        match self {
            Frame::Text { size, .. } => *size,
            Frame::Binary { size } => *size,
            Frame::Ping { size } => *size,
            Frame::Pong { size } => *size,
            Frame::Close => 0,
        }
    }
}

/// What the wait for the first message comes to.
pub enum HelloView {
    Wait,
    Hello(DeviceInfoView),
    Failed(ErrorView),
}

/// What the wait for the first message comes to.
#[derive(Debug)]
pub enum HelloStep {
    /// Not here yet.
    Wait,
    Hello(DeviceInfo),
    Failed(Error),
}

impl View for HelloStep {
    type V = HelloView;

    open spec fn view(&self) -> HelloView {
        match *self {
            HelloStep::Wait => HelloView::Wait,
            HelloStep::Hello(device) => HelloView::Hello(device@),
            HelloStep::Failed(e) => HelloView::Failed(e@),
        }
    }
}

/// The error for text that is not a message.
pub open spec fn bad_json(reason: Seq<char>) -> ErrorView {
    ErrorView::Protocol("JSON inválido: "@ + reason)
}

/// What the wait for the first message comes to: it must be `hello`, in this version of
/// the protocol.
pub open spec fn hello_of(item: Incoming) -> HelloView {
    match item {
        Incoming::Failed(e) => HelloView::Failed(ErrorView::WebSocket(e@)),
        Incoming::Ended => HelloView::Failed(
            ErrorView::Protocol("conexão fechada durante handshake"@),
        ),
        Incoming::Frame(frame) => match frame {
            Frame::Text { size, message: Err(e) } => HelloView::Failed(bad_json(e@)),
            Frame::Text { size, message: Ok(m) } => match m@ {
                MessageView::Hello { v, device } => if v != PROTOCOL_VERSION {
                    HelloView::Failed(
                        ErrorView::Protocol(
                            "versão incompatível: cliente "@ + text::decimal_of(v as nat)
                                + ", servidor "@ + text::decimal_of(PROTOCOL_VERSION as nat),
                        ),
                    )
                } else {
                    HelloView::Hello(device)
                },
                _ => HelloView::Failed(ErrorView::Protocol("primeira mensagem deve ser hello"@)),
            },
            Frame::Close => HelloView::Failed(ErrorView::Protocol("fechado antes do hello"@)),
            Frame::Binary { size } => HelloView::Failed(
                ErrorView::Protocol("esperava hello (texto), recebeu binário"@),
            ),
            Frame::Ping { size } => HelloView::Wait,
            Frame::Pong { size } => HelloView::Wait,
        },
    }
}

/// Takes in what came while the first message is waited for.
pub fn await_hello(item: Incoming) -> (r: HelloStep)
    ensures
        r@ == hello_of(item),
{
    match item {
        Incoming::Failed(e) => HelloStep::Failed(Error::WebSocket(e)),
        Incoming::Ended => HelloStep::Failed(
            Error::Protocol("conexão fechada durante handshake".to_owned()),
        ),
        Incoming::Frame(frame) => match frame {
            Frame::Text { size: _, message } => match message {
                Err(e) => HelloStep::Failed(
                    Error::Protocol(text::join("JSON inválido: ", e.as_str())),
                ),
                Ok(m) => match m {
                    Message::Hello { v, device } => {
                        if v != PROTOCOL_VERSION {
                            let mut t = text::join(
                                "versão incompatível: cliente ",
                                text::decimal(v as u64).as_str(),
                            );
                            t.append(", servidor ");
                            t.append(text::decimal(PROTOCOL_VERSION as u64).as_str());
                            return HelloStep::Failed(Error::Protocol(t));
                        }
                        HelloStep::Hello(device)
                    },
                    _ => HelloStep::Failed(
                        Error::Protocol("primeira mensagem deve ser hello".to_owned()),
                    ),
                },
            },
            Frame::Close => HelloStep::Failed(Error::Protocol("fechado antes do hello".to_owned())),
            Frame::Binary { size: _ } => HelloStep::Failed(
                Error::Protocol("esperava hello (texto), recebeu binário".to_owned()),
            ),
            Frame::Ping { size: _ } => HelloStep::Wait,
            Frame::Pong { size: _ } => HelloStep::Wait,
        },
    }
}

/// What a device may exchange with this server: what both take part in.
pub open spec fn caps_of(cfg: ClipboardConfig, device: Capabilities) -> Capabilities {
    Capabilities {
        text: cfg.sync_text && device.text,
        html: cfg.sync_html && device.html,
        images: cfg.sync_images && device.images,
        files: cfg.sync_files && device.files,
    }
}

/// What a device may exchange with this server.
pub fn state_caps(config: &ServerConfig, device: &DeviceInfo) -> (r: Capabilities)
    ensures
        r == caps_of(config.clipboard, device.capabilities),
{
    Capabilities {
        text: config.clipboard.sync_text && device.capabilities.text,
        html: config.clipboard.sync_html && device.capabilities.html,
        images: config.clipboard.sync_images && device.capabilities.images,
        files: config.clipboard.sync_files && device.capabilities.files,
    }
}

/// The message that accepts a device.
pub open spec fn welcome_of(
    config: ServerConfig,
    id: Seq<char>,
    session_id: Seq<char>,
    device: DeviceInfoView,
) -> MessageView {
    MessageView::PairOk {
        device_id: id,
        server_id: Some(config.device_id@),
        session_id,
        server_name: config.name@,
        capabilities: caps_of(config.clipboard, device.capabilities),
    }
}

fn welcome(config: &ServerConfig, session: &PeerSession, device: &DeviceInfo) -> (r: Message)
    requires
        session.device_id is Some,
    ensures
        r@ == welcome_of(*config, session.device_id->Some_0@, session.session_id@, device@),
{
    Message::PairOk {
        device_id: session.peer_id().clone(),
        server_id: Some(config.device_id.clone()),
        session_id: session.session_id.clone(),
        server_name: config.name.clone(),
        capabilities: state_caps(config, device),
    }
}

/// How a device is greeted.
#[derive(Debug)]
pub enum Greeting {
    /// It is trusted: send the message, and tell the session that it replaces.
    Welcome { message: Message, replaced: Option<PeerHandle> },
    /// It is not: send the challenge.
    Challenge { message: Message },
}

/// Whether the device that `hello` named is trusted.
pub open spec fn is_recognised(p: PairingView, device: DeviceInfoView) -> bool {
    device.id matches Some(id) && p.trusts(id)
}

/// Whether `r` is how `device` is greeted, the server going from `before` to `after` and
/// the session from `session` to `session_after`.
pub open spec fn is_greeting(
    before: ServerState,
    after: ServerState,
    session: PeerSession,
    session_after: PeerSession,
    device: DeviceInfoView,
    r: Greeting,
) -> bool {
    &&& after.config == before.config
    &&& after.admission == before.admission
    &&& session_after.session_id == session.session_id
    &&& session_after.addr == session.addr
    &&& is_recognised(before.pairing@, device) <==> r is Welcome
    &&& match r {
        Greeting::Welcome { message, replaced } => {
            let id = device.id->Some_0;
            &&& message@ == welcome_of(
                before.config,
                id,
                session.session_id@,
                device,
            )
            &&& opt_id(session_after.device_id) == device.id
            &&& session_after.name@ == before.pairing@.trusted[id].name@
            &&& is_session(after.peers@, id, session.session_id@)
            &&& after.peers@ == before.peers@.insert(id, after.peers@[id])
            &&& is_handle(
                after.peers@[id],
                session.addr,
                id,
                before.pairing@.trusted[id].name@,
                session.session_id@,
            )
            &&& exists|now: i64|
                0 <= now <= clock::LAST_SECOND && after.pairing@ == #[trigger] marked(
                    before.pairing@,
                    id,
                    now,
                )
            &&& replaced is Some == before.peers@.contains_key(id)
            &&& replaced matches Some(p) ==> p == before.peers@[id]
        },
        Greeting::Challenge { message } => {
            &&& session_after == session
            &&& after.peers@ == before.peers@
            &&& after.pairing@.trusted == before.pairing@.trusted
            &&& after.pairing@.challenge matches Some(c) && {
                &&& c.session_id@ == session.session_id@
                &&& c.device_name@ == device.name
                &&& is_pin(c.code@)
                &&& is_nonce(c.nonce@)
                &&& entropy::is_uuid(c.challenge_id@)
                &&& c.attempts_left == MAX_ATTEMPTS
                &&& exists|now: u128|
                    c.expires_at == #[trigger] expiry(
                        now,
                        before.config.security.pairing_timeout_secs,
                    )
                &&& message@ matches MessageView::PairChallenge {
                    challenge_id,
                    expires_at,
                    nonce,
                } && challenge_id == c.challenge_id@ && nonce == c.nonce@ && 0 <= expires_at
                    - before.config.security.pairing_timeout_secs <= clock::LAST_SECOND
            }
        },
    }
}

/// Greets a device after its `hello`. A trusted one is let in under the name it is known
/// by; another is sent a challenge, which holds no code.
pub fn greet(state: &mut ServerState, session: &mut PeerSession, device: &DeviceInfo) -> (r: Greeting)
    requires
        old(state).wf(),
        old(state).config.security.pairing_timeout_secs <= MAX_PAIRING_SECS,
    ensures
        final(state).wf(),
        is_greeting(*old(state), *final(state), *old(session), *final(session), device@, r),
{
    let ghost before = state.pairing@;
    let recognised = match &device.id {
        Some(id) => state.pairing.is_trusted(id),
        None => false,
    };
    if recognised {
        match &device.id {
            Some(id) => {
                let name = match state.pairing.device_name(id) {
                    Some(n) => n.to_owned(),
                    None => device.name.clone(),
                };
                state.pairing.mark_seen(id);
                let ghost seen = choose|now: i64|
                    0 <= now <= clock::LAST_SECOND && state.pairing@ == #[trigger] marked(
                        before,
                        id@,
                        now,
                    );
                let replaced = session.attach(state, id.clone(), name.as_str());
                let message = welcome(&state.config, session, device);
                assert(state.pairing@ == marked(before, id@, seen));
                return Greeting::Welcome { message, replaced };
            },
            None => {},
        }
    }
    let timeout: u64 = state.config.security.pairing_timeout_secs;
    let challenge = state.pairing.start_challenge(
        session.session_id.as_str(),
        device.name.as_str(),
        timeout,
    );
    let now: i64 = clock::unix_timestamp();
    let message = Message::PairChallenge {
        challenge_id: challenge.challenge_id,
        expires_at: now + timeout as i64,
        nonce: challenge.nonce,
    };
    Greeting::Challenge { message }
}

/// Only a trusted device is let in without a code, and it stays trusted; another gets no
/// further than a challenge.
pub proof fn law_only_trusted_are_welcomed(
    before: ServerState,
    after: ServerState,
    session: PeerSession,
    session_after: PeerSession,
    device: DeviceInfoView,
    r: Greeting,
)
    requires
        is_greeting(before, after, session, session_after, device, r),
    ensures
        r is Welcome ==> device.id is Some && before.pairing@.trusts(device.id->Some_0)
            && after.pairing@.trusts(device.id->Some_0),
        r is Challenge ==> after.peers@ == before.peers@ && session_after.device_id
            == session.device_id,
{
}

/// What pairing does after something came.
#[derive(Debug)]
pub enum PairingStep {
    /// Nothing yet.
    Wait,
    /// The code was right: save the change, and report how that went.
    Save(TrustChange),
    /// The code was wrong: send the reply and close.
    Refuse { reply: Message, error: Error },
    Failed(Error),
}

/// The reply to a submission that was refused.
pub open spec fn refusal_of(reason: PairFailReason) -> MessageView {
    MessageView::PairFail { reason, message: "PIN inválido ou expirado"@ }
}

/// What pairing says to anything but a submission: why it ends, or nothing.
pub open spec fn interruption(item: Incoming) -> Option<ErrorView> {
    match item {
        Incoming::Failed(e) => Some(ErrorView::WebSocket(e@)),
        Incoming::Ended => Some(ErrorView::Protocol("conexão fechada durante pareamento"@)),
        Incoming::Frame(frame) => match frame {
            Frame::Text { size, message: Err(e) } => Some(bad_json(e@)),
            Frame::Text { size, message: Ok(m) } => Some(
                ErrorView::Protocol("pareamento interrompido"@),
            ),
            Frame::Close => Some(ErrorView::Protocol("fechado durante pareamento"@)),
            _ => None,
        },
    }
}

/// The submission that an item holds.
pub open spec fn submission(item: Incoming) -> Option<MessageView> {
    match item {
        Incoming::Frame(Frame::Text { size, message: Ok(m) }) => if m@ is PairSubmit {
            Some(m@)
        } else {
            None
        },
        _ => None,
    }
}

/// The pairing state once a session's challenge was closed.
pub open spec fn cancelled(p: PairingView, session_id: Seq<char>) -> PairingView {
    PairingView {
        challenge: match p.challenge {
            Some(c) => if c.session_id@ == session_id {
                None
            } else {
                Some(c)
            },
            None => None,
        },
        ..p
    }
}

/// Whether `step` is what submission `m` comes to at `now`, the pairing state going from
/// `before` to `after`.
pub open spec fn judged(
    before: PairingView,
    after: PairingView,
    session_id: Seq<char>,
    kind: Seq<char>,
    m: MessageView,
    now: u128,
    step: PairingStep,
) -> bool {
    m matches MessageView::PairSubmit { challenge_id, code, nonce } && {
        let v = before.verdict(session_id, challenge_id, nonce, code, now);
        match step {
            PairingStep::Save(change) => {
                &&& v == Verdict::Accepted
                &&& after == before
                &&& change matches TrustChange::Pair(d) && is_fresh_device(
                    d,
                    before.challenge->Some_0.device_name@,
                    kind,
                )
            },
            PairingStep::Refuse { reply, error } => {
                &&& v matches Verdict::Refused(reason) && reply@ == refusal_of(reason)
                &&& error@ == ErrorView::Pairing("PIN incorreto"@)
                &&& after == cancelled(
                    PairingView {
                        challenge: before.challenge_after(
                            session_id,
                            challenge_id,
                            nonce,
                            code,
                            now,
                        ),
                        ..before
                    },
                    session_id,
                )
            },
            _ => false,
        }
    }
}

/// Whether `r` is what pairing does after `item` at some time.
pub open spec fn is_pairing_step(
    before: ServerState,
    after: ServerState,
    session_id: Seq<char>,
    device: DeviceInfoView,
    item: Incoming,
    r: PairingStep,
) -> bool {
    exists|now: u128| #[trigger]
        is_pairing_step_at(before, after, session_id, device, item, now, r)
}

/// Whether `r` is what pairing does after `item` at `now`, a time of the pairing clock, the
/// server going from `before` to `after`.
pub open spec fn is_pairing_step_at(
    before: ServerState,
    after: ServerState,
    session_id: Seq<char>,
    device: DeviceInfoView,
    item: Incoming,
    now: u128,
    r: PairingStep,
) -> bool {
    &&& after.config == before.config
    &&& after.admission == before.admission
    &&& after.peers == before.peers
    &&& after.pairing@.trusted == before.pairing@.trusted
    &&& match submission(item) {
        Some(m) => judged(
            before.pairing@,
            after.pairing@,
            session_id,
            device.kind.label(),
            m,
            now,
            r,
        ),
        None => {
            &&& match interruption(item) {
                Some(e) => r matches PairingStep::Failed(error) && error@ == e,
                None => r is Wait,
            }
            &&& after.pairing@ == if item is Ended {
                cancelled(before.pairing@, session_id)
            } else {
                before.pairing@
            }
        },
    }
}

/// Takes in what came while a submission is waited for. A right one gives the change of
/// trust to save; a wrong one ends pairing and closes the challenge.
pub fn pairing_flow(
    state: &mut ServerState,
    session: &PeerSession,
    device: &DeviceInfo,
    item: Incoming,
) -> (r: PairingStep)
    requires
        old(state).wf(),
    ensures
        final(state).wf(),
        is_pairing_step(*old(state), *final(state), session.session_id@, device@, item, r),
{
    let now: u128 = state.pairing.now();
    pairing_flow_at(state, session, device, item, now)
}

/// Takes in what came at `now` while a submission is waited for.
pub fn pairing_flow_at(
    state: &mut ServerState,
    session: &PeerSession,
    device: &DeviceInfo,
    item: Incoming,
    now: u128,
) -> (r: PairingStep)
    requires
        old(state).wf(),
    ensures
        final(state).wf(),
        is_pairing_step_at(
            *old(state),
            *final(state),
            session.session_id@,
            device@,
            item,
            now,
            r,
        ),
{
    match item {
        Incoming::Failed(e) => PairingStep::Failed(Error::WebSocket(e)),
        Incoming::Ended => {
            state.pairing.cancel_session(session.session_id.as_str());
            PairingStep::Failed(Error::Protocol("conexão fechada durante pareamento".to_owned()))
        },
        Incoming::Frame(frame) => match frame {
            Frame::Text { size: _, message } => match message {
                Err(e) => PairingStep::Failed(
                    Error::Protocol(text::join("JSON inválido: ", e.as_str())),
                ),
                Ok(m) => match m {
                    Message::PairSubmit { challenge_id, code, nonce } => {
                        let kind = device.kind.to_string();
                        let result = state.pairing.begin_submit_at(
                            session.session_id.as_str(),
                            challenge_id.as_str(),
                            nonce.as_str(),
                            code.as_str(),
                            kind.as_str(),
                            now,
                        );
                        match result {
                            Ok(change) => PairingStep::Save(change),
                            Err(PairingError::Invalid(reason)) => {
                                state.pairing.cancel_session(session.session_id.as_str());
                                PairingStep::Refuse {
                                    reply: Message::PairFail {
                                        reason,
                                        message: "PIN inválido ou expirado".to_owned(),
                                    },
                                    error: Error::Pairing("PIN incorreto".to_owned()),
                                }
                            },
                            Err(PairingError::Store(e)) => PairingStep::Failed(e),
                        }
                    },
                    _ => PairingStep::Failed(
                        Error::Protocol("pareamento interrompido".to_owned()),
                    ),
                },
            },
            Frame::Close => PairingStep::Failed(
                Error::Protocol("fechado durante pareamento".to_owned()),
            ),
            Frame::Binary { size: _ } => PairingStep::Wait,
            Frame::Ping { size: _ } => PairingStep::Wait,
            Frame::Pong { size: _ } => PairingStep::Wait,
        },
    }
}

/// A device that answered right is trusted once its trust was saved; the devices that
/// were trusted before still are.
pub proof fn law_paired_device_is_trusted(
    before: PairingView,
    after: PairingView,
    session_id: Seq<char>,
    kind: Seq<char>,
    m: MessageView,
    now: u128,
    change: TrustChange,
    other: Seq<char>,
)
    requires
        judged(before, after, session_id, kind, m, now, PairingStep::Save(change)),
    ensures
        added(change) is Some,
        after.changed(change).trusts(added(change)->Some_0),
        before.trusts(other) ==> after.changed(change).trusts(other),
        after.changed(change).challenge is None,
{
}

/// Ends pairing because its time is over.
pub fn pairing_timeout(state: &mut ServerState, session: &PeerSession) -> (r: Error)
    requires
        old(state).wf(),
    ensures
        final(state).wf(),
        final(state).config == old(state).config,
        final(state).admission == old(state).admission,
        final(state).peers == old(state).peers,
        final(state).pairing@ == cancelled(old(state).pairing@, session.session_id@),
        r@ == ErrorView::Pairing("tempo de pareamento expirado"@),
{
    state.pairing.cancel_session(session.session_id.as_str());
    Error::Pairing("tempo de pareamento expirado".to_owned())
}

/// The device that a change adds.
pub open spec fn added(change: TrustChange) -> Option<Seq<char>> {
    match change {
        TrustChange::Pair(d) => Some(d.id@),
        TrustChange::Trust(d) => Some(d.id@),
        TrustChange::Remove(_) => None,
    }
}

/// Lets a device in whose trust was saved: the message to send, and the session that it
/// replaces. Where saving failed, nothing changes and the error comes back.
pub fn finish_pairing(
    state: &mut ServerState,
    session: &mut PeerSession,
    device: &DeviceInfo,
    change: TrustChange,
    saved: Result<(), Error>,
) -> (r: Result<(Message, Option<PeerHandle>), Error>)
    requires
        old(state).wf(),
        change is Pair,
    ensures
        final(state).wf(),
        final(state).config == old(state).config,
        final(state).admission == old(state).admission,
        final(session).session_id == old(session).session_id,
        final(session).addr == old(session).addr,
        r is Ok == saved is Ok,
        match r {
            Err(e) => {
                &&& saved == Err::<(), Error>(e)
                &&& final(state).pairing@ == old(state).pairing@
                &&& final(state).peers@ == old(state).peers@
                &&& *final(session) == *old(session)
            },
            Ok((message, replaced)) => {
                let id = added(change)->Some_0;
                &&& message@ == welcome_of(
                    old(state).config,
                    id,
                    old(session).session_id@,
                    device@,
                )
                &&& final(state).pairing@ == old(state).pairing@.changed(change)
                &&& opt_id(final(session).device_id) == Some(id)
                &&& final(session).name@ == device.name@
                &&& is_session(final(state).peers@, id, old(session).session_id@)
                &&& final(state).peers@ == old(state).peers@.insert(id, final(state).peers@[id])
                &&& is_handle(
                    final(state).peers@[id],
                    old(session).addr,
                    id,
                    device.name@,
                    old(session).session_id@,
                )
                &&& replaced is Some == old(state).peers@.contains_key(id)
                &&& replaced matches Some(p) ==> p == old(state).peers@[id]
            },
        },
{
    let id = match &change {
        TrustChange::Pair(d) => d.id.clone(),
        TrustChange::Trust(d) => d.id.clone(),
        TrustChange::Remove(id) => id.clone(),
    };
    match state.pairing.commit(change, saved) {
        Err(e) => Err(e),
        Ok(()) => {
            let replaced = session.attach(state, id, device.name.as_str());
            let message = welcome(&state.config, session, device);
            Ok((message, replaced))
        },
    }
}

/// The most characters that an image in base64 may have: those of the largest image.
pub open spec fn max_image_text(cfg: ClipboardConfig) -> int {
    (cfg.max_image_bytes + 2) / 3 * 4
}

/// What is too large about a message, if anything: its size and its limit.
pub open spec fn oversize(cfg: ClipboardConfig, m: MessageView) -> Option<(int, int)> {
    let max_text = cfg.max_text_bytes as int;
    match m {
        MessageView::ClipboardText { mime, content, origin, sha256 } => if encode_utf8(content).len()
            > max_text {
            Some((encode_utf8(content).len() as int, max_text))
        } else {
            None
        },
        MessageView::ClipboardImage { mime, data_b64, width, height, sha256, origin } =>
            if encode_utf8(data_b64).len() > max_image_text(cfg) {
            Some((encode_utf8(data_b64).len() as int, max_image_text(cfg)))
        } else {
            None
        },
        MessageView::ClipboardHtml { html, alt, sha256, origin } => if encode_utf8(html).len()
            > max_text {
            Some((encode_utf8(html).len() as int, max_text))
        } else {
            None
        },
        _ => None,
    }
}

/// An image within its limit is not refused for its size. One over the limit is, once it
/// is over the limit rounded up to whole groups of three bytes.
pub proof fn law_image_limit(cfg: ClipboardConfig, m: MessageView, bytes: Seq<u8>)
    requires
        m is ClipboardImage,
        m->data_b64 == encoding::base64_of(bytes),
    ensures
        bytes.len() <= cfg.max_image_bytes ==> oversize(cfg, m) is None,
        bytes.len() > (cfg.max_image_bytes + 2) / 3 * 3 ==> oversize(cfg, m) is Some,
{
    encoding::lemma_base64_len(bytes);
    encoding::lemma_base64_ascii(bytes);
}

/// Refuses clipboard content over its limit.
pub fn check_payload_size(cfg: &ClipboardConfig, m: &Message) -> (r: Result<(), Error>)
    ensures
        match r {
            Ok(()) => oversize(*cfg, m@) is None,
            Err(Error::PayloadTooLarge { size, max }) => oversize(*cfg, m@) == Some(
                (size as int, max as int),
            ),
            Err(_) => false,
        },
{
    let max_text: u128 = cfg.max_text_bytes as u128;
    let max_image_b64: u128 = (cfg.max_image_bytes as u128 + 2) / 3 * 4;
    match m {
        Message::ClipboardText { mime: _, content, origin: _, sha256: _ } => {
            let size: usize = content.as_str().as_bytes().len();
            if size as u128 > max_text {
                return Err(Error::PayloadTooLarge { size, max: max_text as usize });
            }
        },
        Message::ClipboardImage { mime: _, data_b64, width: _, height: _, sha256: _, origin: _ } => {
            let size: usize = data_b64.as_str().as_bytes().len();
            if size as u128 > max_image_b64 {
                return Err(Error::PayloadTooLarge { size, max: max_image_b64 as usize });
            }
        },
        Message::ClipboardHtml { html, alt: _, sha256: _, origin: _ } => {
            let size: usize = html.as_str().as_bytes().len();
            if size as u128 > max_text {
                return Err(Error::PayloadTooLarge { size, max: max_text as usize });
            }
        },
        _ => {},
    }
    Ok(())
}

/// Whether messages of this sort are let through.
pub open spec fn enabled(cfg: ClipboardConfig, m: MessageView) -> bool {
    match m {
        MessageView::ClipboardText { .. } => cfg.sync_text,
        MessageView::ClipboardImage { .. } => cfg.sync_images,
        MessageView::ClipboardHtml { .. } => cfg.sync_html,
        _ => true,
    }
}

/// Refuses clipboard content of a sort that is switched off.
pub fn enforce_caps(cfg: &ClipboardConfig, m: &Message) -> (r: Result<(), Error>)
    ensures
        r is Ok == enabled(*cfg, m@),
        r matches Err(e) ==> e@ == ErrorView::Protocol("capability não habilitada"@),
{
    let on = match m {
        Message::ClipboardText { .. } => cfg.sync_text,
        Message::ClipboardImage { .. } => cfg.sync_images,
        Message::ClipboardHtml { .. } => cfg.sync_html,
        _ => true,
    };
    if on {
        Ok(())
    } else {
        Err(Error::Protocol("capability não habilitada".to_owned()))
    }
}

/// What an open connection does after a frame.
#[derive(Debug)]
pub enum FrameStep {
    Continue,
    /// Send the message back.
    Reply(Message),
    /// The peer is alive: its time starts again.
    ResetIdle,
    /// Send the message to the recipients, and hand the event to the local clipboard.
    Relay { message: Message, recipients: Vec<PeerHandle>, event: Option<ClipboardEvent> },
    /// The connection is over.
    Break,
    Failed(Error),
}

/// The reply to content over its limit.
pub open spec fn too_large_reply(size: int, max: int) -> MessageView {
    MessageView::Error {
        code: "payload_too_large"@,
        message: ErrorView::PayloadTooLarge { size: size as usize, max: max as usize }.text(),
    }
}

/// The reply to content of a sort that is switched off.
pub open spec fn disabled_reply(m: MessageView) -> MessageView {
    MessageView::Error {
        code: "capability_disabled"@,
        message: "tipo '"@ + m.kind_name() + "' não habilitado na config"@,
    }
}

/// Whether `step` hands `m` on for the device `id`: to everyone else, under `id` as its
/// origin, and to the local clipboard where it carries content.
pub open spec fn hands_on(state: ServerState, id: Seq<char>, m: MessageView, step: FrameStep) -> bool {
    step matches FrameStep::Relay { message, recipients, event } && {
        &&& message@ == m.with_origin(id)
        &&& table::lists_all(recipients@, own_id(), state.peers@.remove(id))
        &&& match event {
            Some(e) => dispatch::event_of(message@) is Some && e@ == EventView::Changed(
                dispatch::event_of(message@)->Some_0,
            ),
            None => dispatch::event_of(message@) is None,
        }
    }
}

/// Whether `step` is what a message of a peer other than a sign of life comes to.
pub open spec fn answers_message(
    state: ServerState,
    id: Seq<char>,
    m: MessageView,
    step: FrameStep,
) -> bool {
    let cfg = state.config.clipboard;
    if let Some((size, max)) = oversize(cfg, m) {
        step matches FrameStep::Reply(reply) && reply@ == too_large_reply(size, max)
    } else if !enabled(cfg, m) {
        step matches FrameStep::Reply(reply) && reply@ == disabled_reply(m)
    } else {
        hands_on(state, id, m, step)
    }
}

/// Takes in a peer's message: content over its limit or switched off is answered with an
/// error; the rest goes to the other peers and the local clipboard, its origin being the
/// authenticated sender whatever it says.
pub fn handle_text_message(state: &ServerState, session: &PeerSession, m: Message) -> (r: FrameStep)
    requires
        state.wf(),
        session.device_id is Some,
    ensures
        answers_message(*state, session.device_id->Some_0@, m@, r),
{
    match check_payload_size(&state.config.clipboard, &m) {
        Err(e) => {
            return FrameStep::Reply(
                Message::Error { code: "payload_too_large".to_owned(), message: e.to_string() },
            );
        },
        Ok(()) => {},
    }
    if enforce_caps(&state.config.clipboard, &m).is_err() {
        let mut t = text::join("tipo '", m.kind_name());
        t.append("' não habilitado na config");
        return FrameStep::Reply(
            Message::Error { code: "capability_disabled".to_owned(), message: t },
        );
    }
    let origin = session.peer_id();
    let message = m.with_origin(origin);
    let recipients = state.broadcast_except(Some(origin));
    let event = dispatch::message_to_event(&message);
    FrameStep::Relay { message, recipients, event }
}

/// Whether `step` is what a frame that was let in comes to.
pub open spec fn answers_frame(
    state: ServerState,
    id: Seq<char>,
    frame: Frame,
    step: FrameStep,
) -> bool {
    match frame {
        Frame::Text { size, message: Err(_) } => step is Continue,
        Frame::Text { size, message: Ok(m) } => match m@ {
            MessageView::Ping { ts } => step matches FrameStep::Reply(reply) && reply@
                == (MessageView::Pong { ts }),
            MessageView::Pong { ts } => step is ResetIdle,
            other => answers_message(state, id, other, step),
        },
        Frame::Binary { size } => if size > MAX_BINARY_FRAME {
            step matches FrameStep::Failed(e) && e@ == (ErrorView::PayloadTooLarge {
                size,
                max: MAX_BINARY_FRAME,
            })
        } else {
            step is Continue
        },
        Frame::Ping { size } => step is Continue,
        Frame::Pong { size } => step is Continue,
        Frame::Close => step is Break,
    }
}

/// Takes in a frame that was let in.
pub fn dispatch_frame(state: &ServerState, session: &PeerSession, frame: Frame) -> (r: FrameStep)
    requires
        state.wf(),
        session.device_id is Some,
    ensures
        answers_frame(*state, session.device_id->Some_0@, frame, r),
{
    match frame {
        Frame::Text { size: _, message } => match message {
            Err(_) => FrameStep::Continue,
            Ok(m) => match m {
                Message::Ping { ts } => FrameStep::Reply(Message::Pong { ts }),
                Message::Pong { ts: _ } => FrameStep::ResetIdle,
                m => handle_text_message(state, session, m),
            },
        },
        Frame::Binary { size } => {
            if size > MAX_BINARY_FRAME {
                return FrameStep::Failed(Error::PayloadTooLarge { size, max: MAX_BINARY_FRAME });
            }
            FrameStep::Continue
        },
        Frame::Ping { size: _ } => FrameStep::Continue,
        Frame::Pong { size: _ } => FrameStep::Continue,
        Frame::Close => FrameStep::Break,
    }
}

/// Whether `r` is what an open connection of the device `id` at `ip` does after `item`,
/// the server going from `before` to `after`.
pub open spec fn is_frame_step(
    before: ServerState,
    after: ServerState,
    ip: IpAddress,
    id: Seq<char>,
    item: Incoming,
    r: FrameStep,
) -> bool {
    &&& after.config == before.config
    &&& after.pairing == before.pairing
    &&& after.peers == before.peers
    &&& match item {
        Incoming::Failed(e) => r matches FrameStep::Failed(error) && error@ == ErrorView::WebSocket(
            e@,
        ) && after.admission@ == before.admission@,
        Incoming::Ended => r is Break && after.admission@ == before.admission@,
        Incoming::Frame(frame) => exists|now: u128|
            #![trigger before.admission@.allows(ip, frame.bytes() as int, now)]
            {
                &&& after.admission@ == before.admission@.after_message(
                    ip,
                    frame.bytes() as int,
                    now,
                )
                &&& if before.admission@.allows(ip, frame.bytes() as int, now) {
                    answers_frame(after, id, frame, r)
                } else {
                    r matches FrameStep::Failed(error) && error@ == ErrorView::Protocol(
                        "rate limit exceeded"@,
                    )
                }
            },
    }
}

/// Takes in what came on an open connection. A peer that sends more than it may is cut
/// off.
pub fn handle_frame(state: &mut ServerState, session: &PeerSession, item: Incoming) -> (r: FrameStep)
    requires
        old(state).wf(),
        session.device_id is Some,
    ensures
        final(state).wf(),
        is_frame_step(
            *old(state),
            *final(state),
            session.addr.ip,
            session.device_id->Some_0@,
            item,
            r,
        ),
{
    let frame = match item {
        Incoming::Failed(e) => {
            return FrameStep::Failed(Error::WebSocket(e));
        },
        Incoming::Ended => {
            return FrameStep::Break;
        },
        Incoming::Frame(frame) => frame,
    };
    if !state.admission.allow_message(session.addr.ip, frame.size()) {
        return FrameStep::Failed(Error::Protocol("rate limit exceeded".to_owned()));
    }
    dispatch_frame(state, session, frame)
}

/// Clipboard content that is handed on goes to every peer but its sender, and carries the
/// authenticated sender as its origin, whatever the message said.
pub proof fn law_relayed_under_true_origin(
    state: ServerState,
    id: Seq<char>,
    m: MessageView,
    step: FrameStep,
)
    requires
        answers_message(state, id, m, step),
        step is Relay,
        m.is_clipboard(),
    ensures
        step->message@.origin() == Some(id),
        table::lists_all(step->recipients@, own_id(), state.peers@.remove(id)),
{
}

/// Content that is switched off or over its limit goes to nobody.
pub proof fn law_refused_content_goes_nowhere(
    state: ServerState,
    id: Seq<char>,
    m: MessageView,
    step: FrameStep,
)
    requires
        answers_message(state, id, m, step),
        oversize(state.config.clipboard, m) is Some || !enabled(state.config.clipboard, m),
    ensures
        step is Reply,
        step->Reply_0@ is Error,
{
}

/// A ping for now.
pub fn ping() -> (r: Message)
    ensures
        r@ matches MessageView::Ping { ts } && 0 <= ts <= clock::LAST_SECOND,
{
    Message::Ping { ts: clock::unix_timestamp() }
}

/// Where a connection stands.
#[derive(Debug)]
pub enum Phase {
    /// Its first message is waited for.
    Hello,
    /// The device was sent a challenge.
    Pairing(DeviceInfo),
    /// The device is let in.
    Open,
    Closed,
}

/// A connection and where it stands.
#[derive(Debug)]
pub struct Connection {
    pub session: PeerSession,
    pub phase: Phase,
}

/// What a connection does after something came.
#[derive(Debug)]
pub enum ConnectionStep {
    Wait,
    /// The device was greeted.
    Greeted(Greeting),
    /// Pairing went on.
    Pairing(PairingStep),
    /// A frame of an open connection was taken in.
    Frame(FrameStep),
    /// The connection is over.
    Closed,
    Failed(Error),
}

/// Whether `r` is what the connection `c` does after `item`, becoming `c_after` while the
/// server goes from `before` to `after`.
pub open spec fn is_connection_step(
    c: Connection,
    c_after: Connection,
    before: ServerState,
    after: ServerState,
    item: Incoming,
    r: ConnectionStep,
) -> bool {
    match c.phase {
        Phase::Hello => match hello_of(item) {
            HelloView::Wait => {
                &&& r is Wait
                &&& c_after == c
                &&& after == before
            },
            HelloView::Failed(e) => {
                &&& r matches ConnectionStep::Failed(error) && error@ == e
                &&& c_after.phase is Closed
                &&& c_after.session == c.session
                &&& after == before
            },
            HelloView::Hello(device) => {
                &&& r matches ConnectionStep::Greeted(g) && is_greeting(
                    before,
                    after,
                    c.session,
                    c_after.session,
                    device,
                    g,
                )
                &&& if is_recognised(before.pairing@, device) {
                    c_after.phase is Open
                } else {
                    c_after.phase matches Phase::Pairing(d) && d@ == device
                }
            },
        },
        Phase::Pairing(device) => {
            &&& r matches ConnectionStep::Pairing(step) && is_pairing_step(
                before,
                after,
                c.session.session_id@,
                device@,
                item,
                step,
            )
            &&& c_after.session == c.session
            &&& if r->Pairing_0 is Wait || r->Pairing_0 is Save {
                c_after.phase == c.phase
            } else {
                c_after.phase is Closed
            }
        },
        Phase::Open => {
            &&& r matches ConnectionStep::Frame(step) && is_frame_step(
                before,
                after,
                c.session.addr.ip,
                c.session.device_id->Some_0@,
                item,
                step,
            )
            &&& c_after.session == c.session
            &&& if r->Frame_0 is Break || r->Frame_0 is Failed {
                c_after.phase is Closed
            } else {
                c_after.phase is Open
            }
        },
        Phase::Closed => {
            &&& r is Closed
            &&& c_after == c
            &&& after == before
        },
    }
}

/// What a device sends before it is let in reaches nobody: no peer hears of it, nothing is
/// handed to the local clipboard, and no trust changes before it was saved.
pub proof fn law_nothing_passes_before_entry(
    c: Connection,
    c_after: Connection,
    before: ServerState,
    after: ServerState,
    item: Incoming,
    r: ConnectionStep,
    id: Seq<char>,
)
    requires
        is_connection_step(c, c_after, before, after, item, r),
        !(c.phase is Open),
    ensures
        !(r is Frame),
        after.pairing@.trusts(id) == before.pairing@.trusts(id),
        after.peers@ == before.peers@ || r->Greeted_0 is Welcome,
{
}

impl Connection {
    /// An open connection is tied to a device, and one that is not yet open is not.
    pub open spec fn wf(&self) -> bool {
        match self.phase {
            Phase::Open => self.session.device_id is Some,
            Phase::Closed => true,
            _ => self.session.device_id is None,
        }
    }

    /// A connection that waits for its first message.
    pub fn new(session: PeerSession) -> (r: Self)
        requires
            session.device_id is None,
        ensures
            r.wf(),
            r.session == session,
            r.phase is Hello,
    {
        Connection { session, phase: Phase::Hello }
    }

    /// Takes in what came, according to where the connection stands. What a device sends
    /// reaches others only once the device is let in.
    pub fn take(&mut self, state: &mut ServerState, item: Incoming) -> (r: ConnectionStep)
        requires
            old(self).wf(),
            old(state).wf(),
            old(state).config.security.pairing_timeout_secs <= MAX_PAIRING_SECS,
        ensures
            final(self).wf(),
            final(state).wf(),
            final(state).config == old(state).config,
            final(self).session.session_id == old(self).session.session_id,
            is_connection_step(*old(self), *final(self), *old(state), *final(state), item, r),
    {
        match &self.phase {
            Phase::Hello => match await_hello(item) {
                HelloStep::Wait => ConnectionStep::Wait,
                HelloStep::Failed(e) => {
                    self.phase = Phase::Closed;
                    ConnectionStep::Failed(e)
                },
                HelloStep::Hello(device) => {
                    let greeting = greet(state, &mut self.session, &device);
                    match &greeting {
                        Greeting::Welcome { .. } => {
                            self.phase = Phase::Open;
                        },
                        Greeting::Challenge { .. } => {
                            self.phase = Phase::Pairing(device);
                        },
                    }
                    ConnectionStep::Greeted(greeting)
                },
            },
            Phase::Pairing(device) => {
                let step = pairing_flow(state, &self.session, device, item);
                match &step {
                    PairingStep::Wait => {},
                    PairingStep::Save(_) => {},
                    PairingStep::Refuse { .. } => {
                        self.phase = Phase::Closed;
                    },
                    PairingStep::Failed(_) => {
                        self.phase = Phase::Closed;
                    },
                }
                ConnectionStep::Pairing(step)
            },
            Phase::Open => {
                let step = handle_frame(state, &self.session, item);
                match &step {
                    FrameStep::Break => {
                        self.phase = Phase::Closed;
                    },
                    FrameStep::Failed(_) => {
                        self.phase = Phase::Closed;
                    },
                    _ => {},
                }
                ConnectionStep::Frame(step)
            },
            Phase::Closed => ConnectionStep::Closed,
        }
    }

    /// Goes on once a paired device's trust was saved, or could not be.
    pub fn saved(&mut self, state: &mut ServerState, change: TrustChange, saved: Result<(), Error>) -> (r:
        Result<(Message, Option<PeerHandle>), Error>)
        requires
            old(self).wf(),
            old(state).wf(),
            old(self).phase is Pairing,
            change is Pair,
        ensures
            final(self).wf(),
            final(state).wf(),
            final(state).config == old(state).config,
            final(state).admission == old(state).admission,
            final(self).session.session_id == old(self).session.session_id,
            final(self).session.addr == old(self).session.addr,
            r is Ok == saved is Ok,
            match r {
                Err(e) => {
                    &&& saved == Err::<(), Error>(e)
                    &&& final(self).phase is Closed
                    &&& final(self).session == old(self).session
                    &&& final(state).pairing@ == old(state).pairing@
                    &&& final(state).peers@ == old(state).peers@
                },
                Ok((message, replaced)) => {
                    let id = added(change)->Some_0;
                    &&& message@ == welcome_of(
                        old(state).config,
                        id,
                        old(self).session.session_id@,
                        old(self).phase->Pairing_0@,
                    )
                    &&& final(self).phase is Open
                    &&& opt_id(final(self).session.device_id) == Some(id)
                    &&& final(state).pairing@ == old(state).pairing@.changed(change)
                    &&& is_session(final(state).peers@, id, old(self).session.session_id@)
                    &&& final(state).peers@ == old(state).peers@.insert(
                        id,
                        final(state).peers@[id],
                    )
                    &&& final(self).session.name@ == old(self).phase->Pairing_0.name@
                    &&& is_handle(
                        final(state).peers@[id],
                        old(self).session.addr,
                        id,
                        old(self).phase->Pairing_0.name@,
                        old(self).session.session_id@,
                    )
                    &&& replaced is Some == old(state).peers@.contains_key(id)
                    &&& replaced matches Some(p) ==> p == old(state).peers@[id]
                },
            },
    {
        match &self.phase {
            Phase::Pairing(device) => {
                let r = finish_pairing(state, &mut self.session, device, change, saved);
                if r.is_ok() {
                    self.phase = Phase::Open;
                } else {
                    self.phase = Phase::Closed;
                }
                r
            },
            _ => vstd::pervasive::unreached(),
        }
    }

    /// Ends the connection: its challenge is closed, and its peer taken out unless a newer
    /// session replaced it.
    pub fn finish(&mut self, state: &mut ServerState)
        requires
            old(state).wf(),
        ensures
            final(self).wf(),
            final(self).phase is Closed,
            final(self).session == (PeerSession { device_id: None, ..old(self).session }),
            final(state).wf(),
            final(state).config == old(state).config,
            final(state).admission == old(state).admission,
            final(state).pairing@ == cancelled(
                old(state).pairing@,
                old(self).session.session_id@,
            ),
            final(state).peers@ == match old(self).session.device_id {
                Some(id) => if is_session(
                    old(state).peers@,
                    id@,
                    old(self).session.session_id@,
                ) {
                    old(state).peers@.remove(id@)
                } else {
                    old(state).peers@
                },
                None => old(state).peers@,
            },
    {
        state.pairing.cancel_session(self.session.session_id.as_str());
        self.session.detach(state);
        self.phase = Phase::Closed;
    }
}

/// Whether clipboard content `sent` by the device `id` went where it belongs: in every field
/// as it was, under `id` as its origin, to every peer but `id`, once each, and to the local
/// clipboard as the content that it stands for.
pub open spec fn reaches_everyone_else(
    peers: Map<Seq<char>, PeerHandle>,
    id: Seq<char>,
    sent: MessageView,
    step: FrameStep,
) -> bool {
    step matches FrameStep::Relay { message, recipients, event } && {
        &&& is_content_from(sent, message@, id)
        &&& forall|k: Seq<char>| #[trigger]
            peers.contains_key(k) && k != id ==> recipients@.contains(peers[k])
        &&& forall|i: int|
            0 <= i < recipients@.len() ==> (#[trigger] recipients@[i]).device_id.0@ != id
                && peers.contains_key(recipients@[i].device_id.0@)
                && peers[recipients@[i].device_id.0@] == recipients@[i]
        &&& forall|i: int, j: int|
            0 <= i < j < recipients@.len() ==> (#[trigger] recipients@[i]).device_id.0@ != (
            #[trigger] recipients@[j]).device_id.0@
        &&& sent is ClipboardText ==> event is Some && event->Some_0@ is Changed && {
            let s = event->Some_0@->Changed_0;
            &&& s.mime == sent->ClipboardText_mime
            &&& s.bytes == encode_utf8(sent->content)
            &&& s.sha256 == sent->ClipboardText_sha256
            &&& s.rich is None
        }
        &&& sent is ClipboardImage ==> (event is Some <==> exists|b: Seq<u8>|
            sent->data_b64 == #[trigger] encoding::base64_of(b)) && (event is Some
            ==> event->Some_0@ is Changed && {
            let s = event->Some_0@->Changed_0;
            &&& s.mime == sent->ClipboardImage_mime
            &&& encoding::base64_of(s.bytes) == sent->data_b64
            &&& s.sha256 == sent->ClipboardImage_sha256
            &&& s.rich is None
        })
        &&& sent is ClipboardHtml ==> event is Some && event->Some_0@ is Changed && {
            let s = event->Some_0@->Changed_0;
            &&& s.mime == "text/html"@
            &&& s.rich is Some && s.rich->Some_0.html == sent->html && s.rich->Some_0.sha256
                == sent->ClipboardHtml_sha256
            &&& s.sha256 == sent->ClipboardHtml_sha256
            &&& sent->alt is Some ==> s.bytes == encode_utf8(sent->alt->Some_0)
            &&& sent->alt is None ==> s.bytes == encode_utf8(sent->html)
        }
    }
}

/// Whether clipboard content is of a sort that is switched on and within its limit, in
/// bytes.
pub open spec fn is_welcome_content(cfg: ClipboardConfig, m: MessageView) -> bool {
    ||| m is ClipboardText && cfg.sync_text && encode_utf8(m->content).len() <= cfg.max_text_bytes
    ||| m is ClipboardImage && cfg.sync_images && encode_utf8(m->data_b64).len() <= (
    cfg.max_image_bytes + 2) / 3 * 4
    ||| m is ClipboardHtml && cfg.sync_html && encode_utf8(m->html).len() <= cfg.max_text_bytes
}

proof fn lemma_hands_on(state: ServerState, id: Seq<char>, m: MessageView, step: FrameStep)
    requires
        hands_on(state, id, m, step),
        m is ClipboardText || m is ClipboardImage || m is ClipboardHtml,
    ensures
        reaches_everyone_else(state.peers@, id, m, step),
{
    let peers = state.peers@;
    let recipients = step->recipients@;
    let rest = peers.remove(id);
    assert forall|k: Seq<char>| #[trigger]
        peers.contains_key(k) && k != id implies recipients.contains(peers[k]) by {
        assert(rest.contains_key(k));
        assert(rest[k] == peers[k]);
    }
    assert forall|i: int| 0 <= i < recipients.len() implies (#[trigger] recipients[i]).device_id.0@
        != id && peers.contains_key(recipients[i].device_id.0@)
        && peers[recipients[i].device_id.0@] == recipients[i] by {
        assert(rest.contains_key(own_id()(recipients[i])));
    }
    assert forall|i: int, j: int| 0 <= i < j < recipients.len() implies (
    #[trigger] recipients[i]).device_id.0@ != (#[trigger] recipients[j]).device_id.0@ by {
        assert(own_id()(recipients[i]) != own_id()(recipients[j]));
    }
    if m is ClipboardImage {
        let data = m->data_b64;
        if step->event is Some {
            assert(encoding::base64_of(encoding::unbase64(data)->Some_0) == data);
        }
        if exists|b: Seq<u8>| data == #[trigger] encoding::base64_of(b) {
            assert(encoding::unbase64(data) is Some);
        }
    }
}

/// Text, images and markup of a sort that is on and within the limit reach everyone else and
/// the local clipboard, whole; what is off or over the limit is answered with an error, the
/// limit first, and reaches nobody.
pub proof fn law_content_is_handed_on(
    state: &ServerState,
    session: &PeerSession,
    m: Message,
    r: FrameStep,
)
    requires
        call_ensures(handle_text_message, (state, session, m), r),
        session.device_id is Some,
        m is ClipboardText || m is ClipboardImage || m is ClipboardHtml,
    ensures
        is_welcome_content(state.config.clipboard, m@) ==> reaches_everyone_else(
            state.peers@,
            session.device_id->Some_0.0@,
            m@,
            r,
        ),
        !is_welcome_content(state.config.clipboard, m@) ==> r is Reply && r->Reply_0 is Error && (
        r->Reply_0->Error_code@ == "payload_too_large"@ || r->Reply_0->Error_code@
            == "capability_disabled"@),
        !is_welcome_content(state.config.clipboard, m@) && encode_utf8(m@->content).len()
            > state.config.clipboard.max_text_bytes && m is ClipboardText
            ==> r->Reply_0->Error_code@ == "payload_too_large"@,
        m is ClipboardText && !state.config.clipboard.sync_text && encode_utf8(m@->content).len()
            <= state.config.clipboard.max_text_bytes ==> r->Reply_0->Error_code@
            == "capability_disabled"@,
{
    if is_welcome_content(state.config.clipboard, m@) {
        lemma_hands_on(*state, session.device_id->Some_0@, m@, r);
    } else {
        assert(r->Reply_0@ is Error);
    }
}

/// A message that carries no content and is no sign of life goes to everyone else as it is,
/// and not to the local clipboard.
pub proof fn law_other_messages_are_handed_on(
    state: &ServerState,
    session: &PeerSession,
    m: Message,
    r: FrameStep,
    k: Seq<char>,
)
    requires
        call_ensures(handle_text_message, (state, session, m), r),
        session.device_id is Some,
        !(m is ClipboardText || m is ClipboardImage || m is ClipboardHtml),
    ensures
        r is Relay,
        r->message@ == m@,
        r->event is None,
        state.peers@.contains_key(k) && k != session.device_id->Some_0.0@
            ==> r->recipients@.contains(state.peers@[k]),
{
    let rest = state.peers@.remove(session.device_id->Some_0@);
    if state.peers@.contains_key(k) && k != session.device_id->Some_0.0@ {
        assert(rest.contains_key(k));
        assert(rest[k] == state.peers@[k]);
    }
}

/// What each frame of an open connection comes to: a ping is answered with its own time, a
/// pong says that the peer lives, text that is no message and frames of the transport are
/// passed over, closing ends the connection, and a binary frame over 256 MiB is an error;
/// any other message is taken as a message.
pub proof fn law_frames(
    state: &ServerState,
    session: &PeerSession,
    frame: Frame,
    r: FrameStep,
    taken: FrameStep,
)
    requires
        call_ensures(dispatch_frame, (state, session, frame), r),
        session.device_id is Some,
    ensures
        frame is Text && frame->message is Err ==> r is Continue,
        frame is Text && frame->message is Ok && frame->message->Ok_0 is Ping ==> r is Reply
            && r->Reply_0@ == (MessageView::Pong { ts: frame->message->Ok_0->Ping_ts }),
        frame is Text && frame->message is Ok && frame->message->Ok_0 is Pong ==> r is ResetIdle,
        frame is Ping || frame is Pong ==> r is Continue,
        frame is Close ==> r is Break,
        frame is Binary && frame->Binary_size <= 268_435_456 ==> r is Continue,
        frame is Binary && frame->Binary_size > 268_435_456 ==> r is Failed,
        frame is Text && frame->message is Ok && is_welcome_content(
            state.config.clipboard,
            frame->message->Ok_0@,
        ) ==> reaches_everyone_else(
            state.peers@,
            session.device_id->Some_0.0@,
            frame->message->Ok_0@,
            r,
        ),
{
    if frame is Text && frame->message is Ok && is_welcome_content(
        state.config.clipboard,
        frame->message->Ok_0@,
    ) {
        lemma_hands_on(*state, session.device_id->Some_0@, frame->message->Ok_0@, r);
    }
}

/// On an open connection without limits on how much is sent, welcome content reaches
/// everyone else; nothing of the server's state changes by it. The end of the other side
/// and a failed read end the connection.
pub proof fn law_open_connection(
    state: &mut ServerState,
    session: &PeerSession,
    item: Incoming,
    r: FrameStep,
)
    requires
        call_ensures(handle_frame, (state, session, item), r),
        session.device_id is Some,
        old(state).config.limits == old(state).admission@.limits,
        old(state).admission@.limits.messages_per_minute == 0,
        old(state).admission@.limits.bytes_per_minute == 0,
    ensures
        final(state).peers == old(state).peers && final(state).pairing == old(state).pairing
            && final(state).config == old(state).config,
        item is Ended ==> r is Break,
        item is Failed ==> r is Failed,
        item is Frame && item->Frame_0 is Text && item->Frame_0->message is Ok
            && is_welcome_content(old(state).config.clipboard, item->Frame_0->message->Ok_0@)
            ==> reaches_everyone_else(
            old(state).peers@,
            session.device_id->Some_0.0@,
            item->Frame_0->message->Ok_0@,
            r,
        ),
{
    if item is Frame && item->Frame_0 is Text && item->Frame_0->message is Ok
        && is_welcome_content(old(state).config.clipboard, item->Frame_0->message->Ok_0@) {
        lemma_hands_on(
            *final(state),
            session.device_id->Some_0@,
            item->Frame_0->message->Ok_0@,
            r,
        );
    }
}

/// A connection passes on the step of the stage that it stands in, and moves as that step
/// says: an open one stays open unless it ends, one that is pairing stays so until its device
/// is let in or refused, one that is over stays over.
pub proof fn law_stages(
    c: &mut Connection,
    state: &mut ServerState,
    item: Incoming,
    r: ConnectionStep,
)
    requires
        call_ensures(Connection::take, (c, state, item), r),
        old(c).phase is Open ==> old(c).session.device_id is Some,
        old(state).admission@.limits.messages_per_minute == 0,
        old(state).admission@.limits.bytes_per_minute == 0,
    ensures
        old(c).phase is Open ==> r is Frame,
        old(c).phase is Open && item is Frame && item->Frame_0 is Text && item->Frame_0->message is Ok
            && is_welcome_content(old(state).config.clipboard, item->Frame_0->message->Ok_0@)
            ==> final(c).phase is Open && reaches_everyone_else(
            old(state).peers@,
            old(c).session.device_id->Some_0.0@,
            item->Frame_0->message->Ok_0@,
            r->Frame_0,
        ),
        old(c).phase is Open && (item is Ended || item is Failed) ==> final(c).phase is Closed,
        old(c).phase is Hello && item is Frame && (item->Frame_0 is Ping || item->Frame_0 is Pong)
            ==> r is Wait && *final(c) == *old(c) && *final(state) == *old(state),
        old(c).phase is Hello && (item is Ended || item is Failed) ==> r is Failed && final(c).phase
            is Closed && *final(state) == *old(state),
        old(c).phase is Pairing ==> r is Pairing,
        old(c).phase is Pairing && !(item is Frame) ==> final(c).phase is Closed,
        old(c).phase is Hello && r is Greeted && r->Greeted_0 is Welcome ==> final(c).phase is Open,
        old(c).phase is Hello && r is Greeted && r->Greeted_0 is Challenge
            ==> final(c).phase is Pairing,
        old(c).phase is Closed ==> r is Closed && *final(c) == *old(c) && *final(state)
            == *old(state),
        final(c).session.session_id == old(c).session.session_id,
{
    if old(c).phase is Open && item is Frame && item->Frame_0 is Text && item->Frame_0->message is Ok
        && is_welcome_content(old(state).config.clipboard, item->Frame_0->message->Ok_0@) {
        lemma_hands_on(
            *final(state),
            old(c).session.device_id->Some_0@,
            item->Frame_0->message->Ok_0@,
            r->Frame_0,
        );
    }
}

/// The first message must be `hello` in version 1, and then gives the device that it names;
/// frames of the transport are waited out, and anything else is an error.
pub proof fn law_first_message(item: Incoming, r: HelloStep)
    requires
        call_ensures(await_hello, (item,), r),
    ensures
        item is Frame && item->Frame_0 is Text && item->Frame_0->message is Ok
            && item->Frame_0->message->Ok_0 is Hello && item->Frame_0->message->Ok_0->v == 1 ==> r
            is Hello && r->Hello_0@ == item->Frame_0->message->Ok_0->device@,
        r is Hello ==> item is Frame && item->Frame_0 is Text && item->Frame_0->message is Ok
            && item->Frame_0->message->Ok_0 is Hello && item->Frame_0->message->Ok_0->v == 1,
        r is Wait <==> item is Frame && (item->Frame_0 is Ping || item->Frame_0 is Pong),
{
    if item is Frame && item->Frame_0 is Text && item->Frame_0->message is Ok {
        assert(item->Frame_0->message->Ok_0@ is Hello <==> item->Frame_0->message->Ok_0 is Hello);
    }
}

/// Whether `m` lets the device `id` in: under that identifier, by that server and session,
/// for what both sides take part in.
pub open spec fn lets_in(
    m: MessageView,
    config: ServerConfig,
    id: Seq<char>,
    session_id: Seq<char>,
    caps: Capabilities,
) -> bool {
    m matches MessageView::PairOk {
        device_id,
        server_id,
        session_id: s,
        server_name,
        capabilities,
    } && device_id == id && server_id == Some(config.device_id.0@) && s == session_id && server_name
        == config.name@ && capabilities.text == (config.clipboard.sync_text && caps.text)
        && capabilities.html == (config.clipboard.sync_html && caps.html) && capabilities.images
        == (config.clipboard.sync_images && caps.images) && capabilities.files == (
    config.clipboard.sync_files && caps.files)
}

/// A device that is trusted under the identifier it names is let in at once and connected
/// under the name it is known by. Any other is sent a challenge for its own connection and
/// name, good for the time that the settings give, and connects nobody; the code stays here.
pub proof fn law_greeting(
    state: &mut ServerState,
    session: &mut PeerSession,
    device: &DeviceInfo,
    r: Greeting,
)
    requires
        call_ensures(greet, (state, session, device), r),
    ensures
        r is Welcome <==> device.id is Some && old(state).pairing@.trusted.contains_key(
            device.id->Some_0.0@,
        ) && old(state).pairing@.trusted[device.id->Some_0.0@].trusted,
        r is Welcome ==> {
            let id = device.id->Some_0.0@;
            &&& lets_in(
                r->Welcome_message@,
                old(state).config,
                id,
                old(session).session_id@,
                device.capabilities,
            )
            &&& final(state).peers@.contains_key(id)
            &&& final(state).peers@[id].session_id@ == old(session).session_id@
            &&& final(state).peers@[id].addr == old(session).addr
            &&& final(state).peers@[id].device_id.0@ == id
            &&& final(state).peers@[id].name@ == old(state).pairing@.trusted[id].name@
            &&& final(session).device_id is Some && final(session).device_id->Some_0.0@ == id
            &&& forall|k: Seq<char>| #[trigger]
                old(state).peers@.contains_key(k) && k != id ==> final(state).peers@.contains_key(k) && final(state).peers@[k] == old(state).peers@[k]
            &&& r->replaced is Some <==> old(state).peers@.contains_key(id)
            &&& final(state).pairing@.challenge == old(state).pairing@.challenge
            &&& final(state).pairing@.trusted.contains_key(id)
            &&& final(state).pairing@.trusted[id].trusted
        },
        r is Challenge ==> {
            &&& final(state).peers@ == old(state).peers@
            &&& final(state).pairing@.trusted == old(state).pairing@.trusted
            &&& *final(session) == *old(session)
            &&& final(state).pairing@.challenge is Some
            &&& r->Challenge_message@ is PairChallenge
            &&& final(state).pairing@.challenge->Some_0.session_id@ == old(session).session_id@
            &&& final(state).pairing@.challenge->Some_0.device_name@ == device.name@
            &&& final(state).pairing@.challenge->Some_0.attempts_left == 5
            &&& final(state).pairing@.challenge->Some_0.code@.len() == 6
            &&& r->Challenge_message@->PairChallenge_challenge_id
                == final(state).pairing@.challenge->Some_0.challenge_id@
            &&& r->Challenge_message@->PairChallenge_nonce
                == final(state).pairing@.challenge->Some_0.nonce@
            &&& r->Challenge_message@->expires_at
                >= old(state).config.security.pairing_timeout_secs
        },
        final(state).config == old(state).config && final(state).admission == old(state).admission,
{
    assert(device@.capabilities == device.capabilities);
    assert(device@.id == opt_id(device.id));
}

/// What comes while a code is waited for: the right one for this connection's challenge
/// gives the device to trust; a wrong one is refused with its reason, and the challenge is
/// closed; anything but a code ends pairing; frames that say nothing are waited out. Nobody
/// is trusted or connected by it yet.
pub proof fn law_code_at_the_door(
    state: &mut ServerState,
    session: &PeerSession,
    device: &DeviceInfo,
    item: Incoming,
    now: u128,
    r: PairingStep,
)
    requires
        call_ensures(pairing_flow_at, (state, session, device, item, now), r),
    ensures
        final(state).peers == old(state).peers && final(state).config == old(state).config,
        final(state).admission == old(state).admission,
        final(state).pairing@.trusted == old(state).pairing@.trusted,
        item is Frame && item->Frame_0 is Text && item->Frame_0->message is Ok
            && item->Frame_0->message->Ok_0 is PairSubmit ==> {
            let m = item->Frame_0->message->Ok_0;
            let right = old(state).pairing@.challenge matches Some(c) && c.challenge_id@
                == m->PairSubmit_challenge_id@ && c.session_id@ == session.session_id@ && c.nonce@
                == m->PairSubmit_nonce@ && c.code@ == m->PairSubmit_code@ && now < c.expires_at;
            &&& right ==> r is Save && r->Save_0 is Pair && r->Save_0->Pair_0.name@ == old(state).pairing@.challenge->Some_0.device_name@ && r->Save_0->Pair_0.kind@
                == device.kind.label() && r->Save_0->Pair_0.trusted && final(state).pairing@
                == old(state).pairing@
            &&& !right ==> r is Refuse && r->reply@ is PairFail && !(
            final(state).pairing@.challenge matches Some(c) && c.session_id@ == session.session_id@)
        },
        item is Ended || item is Failed ==> r is Failed,
        item is Frame && (item->Frame_0 is Ping || item->Frame_0 is Pong || item->Frame_0 is Binary)
            ==> r is Wait && final(state).pairing@ == old(state).pairing@,
        item is Frame && item->Frame_0 is Close ==> r is Failed,
        item is Frame && item->Frame_0 is Text && !(item->Frame_0->message is Ok
            && item->Frame_0->message->Ok_0 is PairSubmit) ==> r is Failed,
{
    if item is Frame && item->Frame_0 is Text && item->Frame_0->message is Ok {
        assert(item->Frame_0->message->Ok_0@ is PairSubmit
            <==> item->Frame_0->message->Ok_0 is PairSubmit);
    }
}

/// A device whose trust was saved is trusted, let in and connected under the name it gave,
/// and the challenge is closed; where saving failed, nothing changes.
pub proof fn law_entry(
    state: &mut ServerState,
    session: &mut PeerSession,
    device: &DeviceInfo,
    change: TrustChange,
    saved: Result<(), Error>,
    r: Result<(Message, Option<PeerHandle>), Error>,
)
    requires
        call_ensures(finish_pairing, (state, session, device, change, saved), r),
        change is Pair,
    ensures
        r is Ok <==> saved is Ok,
        r is Err ==> final(state).pairing@ == old(state).pairing@ && final(state).peers@
            == old(state).peers@ && *final(session) == *old(session),
        r is Ok ==> {
            let id = change->Pair_0.id.0@;
            &&& lets_in(
                r->Ok_0.0@,
                old(state).config,
                id,
                old(session).session_id@,
                device.capabilities,
            )
            &&& final(state).pairing@.trusted.contains_key(id)
            &&& final(state).pairing@.trusted[id] == change->Pair_0
            &&& final(state).pairing@.challenge is None
            &&& forall|k: Seq<char>| #[trigger]
                old(state).pairing@.trusted.contains_key(k) && k != id ==> final(state).pairing@.trusted.contains_key(k) && final(state).pairing@.trusted[k]
                    == old(state).pairing@.trusted[k]
            &&& final(state).peers@.contains_key(id)
            &&& final(state).peers@[id].session_id@ == old(session).session_id@
            &&& final(state).peers@[id].name@ == device.name@
            &&& forall|k: Seq<char>| #[trigger]
                old(state).peers@.contains_key(k) && k != id ==> final(state).peers@.contains_key(k) && final(state).peers@[k] == old(state).peers@[k]
            &&& final(session).device_id is Some && final(session).device_id->Some_0.0@ == id
        },
{
    assert(device@.capabilities == device.capabilities);
}

/// The end of a connection takes out its own peer and closes its own challenge, and nothing
/// of anyone else.
pub proof fn law_end_of_connection(c: &mut Connection, state: &mut ServerState, r: (), k: Seq<char>)
    requires
        call_ensures(Connection::finish, (c, state), r),
    ensures
        final(c).phase is Closed,
        final(state).pairing@.trusted == old(state).pairing@.trusted,
        !(final(state).pairing@.challenge matches Some(h) && h.session_id@
            == old(c).session.session_id@),
        old(state).pairing@.challenge matches Some(h) && h.session_id@
            != old(c).session.session_id@ ==> final(state).pairing@.challenge
            == old(state).pairing@.challenge,
        old(c).session.device_id is Some && k == old(c).session.device_id->Some_0.0@ && old(state).peers@.contains_key(k) && old(state).peers@[k].session_id@ == old(c).session.session_id@
            ==> !final(state).peers@.contains_key(k),
        old(state).peers@.contains_key(k) && !(old(c).session.device_id is Some && k == old(c).session.device_id->Some_0.0@ && old(state).peers@[k].session_id@
            == old(c).session.session_id@) ==> final(state).peers@.contains_key(k) && final(state).peers@[k] == old(state).peers@[k],
        final(state).peers@.contains_key(k) ==> old(state).peers@.contains_key(k),
{
}

/// A peer may use what both sides have: text, markup, images and files each for itself.
pub proof fn law_capabilities(config: &ServerConfig, device: &DeviceInfo, r: Capabilities)
    requires
        call_ensures(state_caps, (config, device), r),
    ensures
        r.text <==> config.clipboard.sync_text && device.capabilities.text,
        r.html <==> config.clipboard.sync_html && device.capabilities.html,
        r.images <==> config.clipboard.sync_images && device.capabilities.images,
        r.files <==> config.clipboard.sync_files && device.capabilities.files,
{
}

/// Content is refused by size where it is longer than its limit, which for an image is that of
/// its bytes in base64, and by sort where that is switched off; other messages never are.
pub proof fn law_size_and_sort(
    cfg: &ClipboardConfig,
    m: &Message,
    sized: Result<(), Error>,
    sorted: Result<(), Error>,
)
    requires
        call_ensures(check_payload_size, (cfg, m), sized),
        call_ensures(enforce_caps, (cfg, m), sorted),
    ensures
        *m is ClipboardText ==> (sized is Ok <==> encode_utf8(m->content@).len()
            <= cfg.max_text_bytes) && (sorted is Ok <==> cfg.sync_text),
        *m is ClipboardHtml ==> (sized is Ok <==> encode_utf8(m->html@).len()
            <= cfg.max_text_bytes) && (sorted is Ok <==> cfg.sync_html),
        *m is ClipboardImage ==> (sized is Ok <==> encode_utf8(m->data_b64@).len() <= (
        cfg.max_image_bytes + 2) / 3 * 4) && (sorted is Ok <==> cfg.sync_images),
        !(*m is ClipboardText || *m is ClipboardHtml || *m is ClipboardImage) ==> sized is Ok
            && sorted is Ok,
        sized is Err ==> sized->Err_0 is PayloadTooLarge && sized->Err_0->size
            > sized->Err_0->max,
        sized is Err && *m is ClipboardText ==> sized->Err_0->size == encode_utf8(m->content@).len()
            && sized->Err_0->max == cfg.max_text_bytes,
        sorted is Err ==> sorted->Err_0 is Protocol,
{
    if sorted is Err {
        assert(sorted->Err_0@ is Protocol);
    }
}

/// Whoever takes too long is refused, and the challenge goes where it was theirs.
pub proof fn law_too_late(state: &mut ServerState, session: &PeerSession, r: Error)
    requires
        call_ensures(pairing_timeout, (state, session), r),
    ensures
        r is Pairing,
        final(state).peers == old(state).peers && final(state).pairing@.trusted
            == old(state).pairing@.trusted,
        old(state).pairing@.challenge matches Some(c) && c.session_id@ == session.session_id@
            ==> final(state).pairing@.challenge is None,
        !(old(state).pairing@.challenge matches Some(c) && c.session_id@ == session.session_id@)
            ==> final(state).pairing@.challenge == old(state).pairing@.challenge,
{
    assert(r@ is Pairing);
}

/// By the clock, a save is asked for only after the right code of the session's own challenge.
pub proof fn law_door_by_the_clock(
    state: &mut ServerState,
    session: &PeerSession,
    device: &DeviceInfo,
    item: Incoming,
    r: PairingStep,
)
    requires
        call_ensures(pairing_flow, (state, session, device, item), r),
    ensures
        final(state).peers == old(state).peers && final(state).config == old(state).config,
        final(state).pairing@.trusted == old(state).pairing@.trusted,
        r is Save ==> item is Frame && item->Frame_0 is Text && item->Frame_0->message is Ok
            && item->Frame_0->message->Ok_0 is PairSubmit && {
            let m = item->Frame_0->message->Ok_0;
            &&& old(state).pairing@.challenge matches Some(c) && c.challenge_id@
                == m->PairSubmit_challenge_id@ && c.session_id@ == session.session_id@ && c.nonce@
                == m->PairSubmit_nonce@ && c.code@ == m->PairSubmit_code@
            &&& r->Save_0 is Pair && r->Save_0->Pair_0.trusted
        },
        item is Frame && (item->Frame_0 is Ping || item->Frame_0 is Pong || item->Frame_0 is Binary)
            ==> r is Wait && final(state).pairing@ == old(state).pairing@,
        item is Ended || item is Failed ==> r is Failed,
{
}

/// Once the change is saved the connection is open and its device is let in; where it was not
/// saved the connection ends and nothing has changed.
pub proof fn law_saving(
    c: &mut Connection,
    state: &mut ServerState,
    change: TrustChange,
    saved: Result<(), Error>,
    r: Result<(Message, Option<PeerHandle>), Error>,
)
    requires
        call_ensures(Connection::saved, (c, state, change, saved), r),
        old(c).phase is Pairing,
        change is Pair,
        old(c).wf(),
        old(state).wf(),
    ensures
        r is Ok <==> saved is Ok,
        r is Err ==> final(c).phase is Closed && final(state).pairing@ == old(state).pairing@
            && final(state).peers@ == old(state).peers@,
        r is Ok ==> {
            let id = change->Pair_0.id.0@;
            &&& final(c).phase is Open
            &&& lets_in(
                r->Ok_0.0@,
                old(state).config,
                id,
                old(c).session.session_id@,
                old(c).phase->Pairing_0.capabilities,
            )
            &&& final(state).pairing@.trusted.contains_key(id)
            &&& final(state).pairing@.trusted[id] == change->Pair_0
            &&& final(state).pairing@.challenge is None
            &&& final(state).peers@.contains_key(id)
            &&& final(state).peers@[id].session_id@ == old(c).session.session_id@
            &&& forall|k: Seq<char>| #[trigger]
                old(state).peers@.contains_key(k) && k != id ==> final(state).peers@.contains_key(k)
                    && final(state).peers@[k] == old(state).peers@[k]
        },
{
}

/// A frame counts for the bytes that it was said to have, a closing one for none.
pub proof fn law_frame_sizes(frame: Frame, n: usize)
    requires
        call_ensures(Frame::size, (&frame,), n),
    ensures
        frame is Text ==> n == frame->Text_size,
        frame is Binary ==> n == frame->Binary_size,
        frame is Ping ==> n == frame->Ping_size,
        frame is Pong ==> n == frame->Pong_size,
        frame is Close ==> n == 0,
{
}

/// Under limits content still reaches everyone else, or its sender is cut off; what is taken is
/// counted for its address, and a frame that is larger than a whole minute may be never is.
pub proof fn law_limited_connection(
    state: &mut ServerState,
    session: &PeerSession,
    frame: Frame,
    n: usize,
    r: FrameStep,
)
    requires
        call_ensures(handle_frame, (state, session, Incoming::Frame(frame)), r),
        call_ensures(Frame::size, (&frame,), n),
        session.device_id is Some,
    ensures
        frame is Text && frame->message is Ok && is_welcome_content(
            old(state).config.clipboard,
            frame->message->Ok_0@,
        ) ==> reaches_everyone_else(
            old(state).peers@,
            session.device_id->Some_0.0@,
            frame->message->Ok_0@,
            r,
        ) || (r is Failed && r->Failed_0 is Protocol),
        0 < old(state).admission@.limits.bytes_per_minute < n ==> r is Failed && r->Failed_0
            is Protocol,
        old(state).admission@.limits.messages_per_minute > 0 && !(r is Failed) ==> {
            let w = final(state).admission@.windows;
            &&& w.contains_key(session.addr.ip)
            &&& 1 <= w[session.addr.ip].messages
                <= old(state).admission@.limits.messages_per_minute
            &&& w[session.addr.ip].bytes >= n
        },
{
    let ip = session.addr.ip;
    let a = old(state).admission@;
    let now = choose|now: u128|
        #![trigger a.allows(ip, frame.bytes() as int, now)]
        {
            &&& final(state).admission@ == a.after_message(ip, frame.bytes() as int, now)
            &&& if a.allows(ip, frame.bytes() as int, now) {
                answers_frame(*final(state), session.device_id->Some_0@, frame, r)
            } else {
                r matches FrameStep::Failed(error) && error@ == ErrorView::Protocol(
                    "rate limit exceeded"@,
                )
            }
        };
    assert(a.allows(ip, frame.bytes() as int, now) || r is Failed);
    if !a.allows(ip, frame.bytes() as int, now) {
        assert(r->Failed_0@ is Protocol);
    } else if frame is Text && frame->message is Ok && is_welcome_content(
        old(state).config.clipboard,
        frame->message->Ok_0@,
    ) {
        lemma_hands_on(
            *final(state),
            session.device_id->Some_0@,
            frame->message->Ok_0@,
            r,
        );
    }
}

/// What a refusal says: of content over its limit its size and the limit, of content of a sort
/// that is off that sort, and of text that is no message why not.
pub proof fn law_refusals_in_words(
    state: &ServerState,
    session: &PeerSession,
    m: Message,
    r: FrameStep,
    sized: Result<(), Error>,
    said: String,
    item: Incoming,
    hello: HelloStep,
)
    requires
        call_ensures(handle_text_message, (state, session, m), r),
        session.device_id is Some,
        call_ensures(check_payload_size, (&state.config.clipboard, &m), sized),
        sized is Err ==> call_ensures(Error::to_string, (&sized->Err_0,), said),
        call_ensures(await_hello, (item,), hello),
    ensures
        sized is Err ==> r is Reply && r->Reply_0 is Error && r->Reply_0->Error_message@ == said@,
        sized is Ok && m is ClipboardText && !state.config.clipboard.sync_text ==> r is Reply
            && r->Reply_0 is Error && r->Reply_0->Error_message@ == "tipo '"@ + "clipboard_text"@
            + "' não habilitado na config"@,
        sized is Ok && m is ClipboardImage && !state.config.clipboard.sync_images ==> r is Reply
            && r->Reply_0 is Error && r->Reply_0->Error_message@ == "tipo '"@ + "clipboard_image"@
            + "' não habilitado na config"@,
        item is Frame && item->Frame_0 is Text && item->Frame_0->message is Err ==> hello is Failed
            && hello->Failed_0 is Protocol && hello->Failed_0->Protocol_0@ == "JSON inválido: "@
            + item->Frame_0->message->Err_0@,
{
    if r is Reply {
        assert(r->Reply_0@ is Error <==> r->Reply_0 is Error);
    }
    if hello is Failed {
        assert(hello->Failed_0@ is Protocol <==> hello->Failed_0 is Protocol);
    }
}

/// A connection that is pairing goes on doing so, for the same device, while it waits and while
/// the change is being saved.
pub proof fn law_pairing_goes_on(
    c: &mut Connection,
    state: &mut ServerState,
    item: Incoming,
    r: ConnectionStep,
)
    requires
        call_ensures(Connection::take, (c, state, item), r),
        old(c).phase is Pairing,
    ensures
        r is Pairing && (r->Pairing_0 is Wait || r->Pairing_0 is Save) ==> *final(c) == *old(c),
        r is Pairing && (r->Pairing_0 is Refuse || r->Pairing_0 is Failed) ==> final(c).phase
            is Closed && final(c).session == old(c).session,
        final(state).peers == old(state).peers,
{
}

} // verus!
