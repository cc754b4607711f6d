//! Connections that this device opens: to which servers, in which order, and what is
//! said on them.

use vstd::prelude::*;

use crate::clipboard::{ClipboardEvent, EventView};
use crate::config::{
    ClipboardConfig, Config, EndpointConfig, EndpointScope, OutboundRoute, Transport,
};
use crate::dispatch;
use crate::error::ErrorView;
use crate::protocol::{
    Capabilities, DeviceId, DeviceInfo, DeviceInfoView, DeviceKind, Message, MessageView,
    PROTOCOL_VERSION,
};
use crate::relay_crypto::{is_owner_only, owner_only};
use crate::text;
use crate::transport::{Frame, Incoming};

verus! {

/// How many seconds a connection may take to come about.
pub const CONNECT_TIMEOUT: u64 = 8;

/// How many seconds to wait when no server could be reached.
pub const RETRY_DELAY: u64 = 3;

/// Those of `l` that are of one scope, in order.
pub open spec fn of_scope(l: Seq<EndpointConfig>, scope: EndpointScope) -> Seq<EndpointConfig>
    decreases l.len(),
{
    if l.len() == 0 {
        l
    } else if l.last().scope == scope {
        of_scope(l.drop_last(), scope).push(l.last())
    } else {
        of_scope(l.drop_last(), scope)
    }
}

/// The servers to try, in order: those of the chosen route, and where both are, the local
/// ones first.
pub open spec fn route_of(l: Seq<EndpointConfig>, route: OutboundRoute) -> Seq<EndpointConfig> {
    match route {
        OutboundRoute::Lan => of_scope(l, EndpointScope::Lan),
        OutboundRoute::Relay => of_scope(l, EndpointScope::Relay),
        OutboundRoute::Auto => of_scope(l, EndpointScope::Lan) + of_scope(l, EndpointScope::Relay),
    }
}

fn push_scope(out: &mut Vec<EndpointConfig>, l: &Vec<EndpointConfig>, scope: EndpointScope)
    ensures
        final(out)@ == old(out)@ + of_scope(l@, scope),
{
    let ghost before = out@;
    let mut i: usize = 0;
    assert(out@ =~= before + of_scope(l@.take(0), scope));
    while i < l.len()
        invariant
            i <= l@.len(),
            out@ == before + of_scope(l@.take(i as int), scope),
        decreases l@.len() - i,
    {
        assert(l@.take(i + 1).drop_last() =~= l@.take(i as int));
        if l[i].scope == scope {
            out.push(l[i].clone());
        }
        assert(out@ =~= before + of_scope(l@.take(i + 1), scope));
        i = i + 1;
    }
    assert(l@.take(i as int) =~= l@);
}

/// The servers to try, in order.
pub fn ordered_endpoints(config: &Config) -> (r: Vec<EndpointConfig>)
    ensures
        r@ == route_of(config.endpoints@, config.security.outbound_route),
{
    let mut r: Vec<EndpointConfig> = Vec::new();
    match config.security.outbound_route {
        OutboundRoute::Lan => push_scope(&mut r, &config.endpoints, EndpointScope::Lan),
        OutboundRoute::Relay => push_scope(&mut r, &config.endpoints, EndpointScope::Relay),
        OutboundRoute::Auto => {
            push_scope(&mut r, &config.endpoints, EndpointScope::Lan);
            push_scope(&mut r, &config.endpoints, EndpointScope::Relay);
        },
    }
    assert(r@ =~= route_of(config.endpoints@, config.security.outbound_route));
    r
}

proof fn lemma_of_scope(l: Seq<EndpointConfig>, scope: EndpointScope)
    ensures
        forall|i: int|
            0 <= i < of_scope(l, scope).len() ==> (#[trigger] of_scope(l, scope)[i]).scope == scope,
        of_scope(l, EndpointScope::Lan).len() + of_scope(l, EndpointScope::Relay).len() == l.len(),
    decreases l.len(),
{
    if l.len() > 0 {
        lemma_of_scope(l.drop_last(), scope);
    }
}

/// With both routes, no local server is tried after a relay, and none is left out.
pub proof fn law_local_before_relay(l: Seq<EndpointConfig>, i: int, j: int)
    requires
        0 <= i < j < route_of(l, OutboundRoute::Auto).len(),
        route_of(l, OutboundRoute::Auto)[i].scope == EndpointScope::Relay,
    ensures
        route_of(l, OutboundRoute::Auto)[j].scope == EndpointScope::Relay,
        route_of(l, OutboundRoute::Auto).len() == l.len(),
{
    lemma_of_scope(l, EndpointScope::Lan);
    lemma_of_scope(l, EndpointScope::Relay);
    let a = of_scope(l, EndpointScope::Lan);
    let b = of_scope(l, EndpointScope::Relay);
    let r = route_of(l, OutboundRoute::Auto);
    if i < a.len() {
        assert(r[i] == a[i]);
    } else {
        assert(r[j] == b[j - a.len()]);
    }
}

/// What a URL names: a host, and a port, given or implied by the scheme.
#[derive(Debug)]
pub struct UrlParts {
    pub host: Option<String>,
    pub port: Option<u16>,
}

/// The contents of a `UrlParts`.
pub struct UrlView {
    pub host: Option<Seq<char>>,
    pub port: Option<u16>,
}

impl View for UrlParts {
    type V = UrlView;

    open spec fn view(&self) -> UrlView {
        UrlView { host: crate::protocol::opt_view(self.host), port: self.port }
    }
}

/// What a URL names, or why it is none.
pub uninterp spec fn url_parts(s: Seq<char>) -> Result<UrlView, Seq<char>>;

/// The contents of what reading a URL gave.
pub open spec fn url_view(r: Result<UrlParts, String>) -> Result<UrlView, Seq<char>> {
    match r {
        Ok(p) => Ok(p@),
        Err(e) => Err(e@),
    }
}

/// `url::Url::parse`, with the host and the port (`host_str`, `port_or_known_default`) of
/// what it gives, or the text of its error: a function of the text that is read.
#[verifier::external_body]
pub(crate) fn parse_url(s: &str) -> (r: Result<UrlParts, String>)
    ensures
        url_view(r) == url_parts(s@),
{
    match url::Url::parse(s) {
        Ok(u) => Ok(UrlParts { host: u.host_str().map(str::to_owned), port: u.port_or_known_default() }),
        Err(e) => Err(e.to_string()),
    }
}

/// Where to connect to, given what the URL names.
pub open spec fn target_of(parts: Result<UrlView, Seq<char>>) -> Result<(Seq<char>, u16), Seq<char>> {
    match parts {
        Err(e) => Err("URL inválida: "@ + e),
        Ok(p) => match p.host {
            None => Err("endpoint sem host"@),
            Some(h) => match p.port {
                None => Err("endpoint sem porta"@),
                Some(n) => Ok((h, n)),
            },
        },
    }
}

/// Where to connect to, given what the URL names.
pub fn target(parts: Result<UrlParts, String>) -> (r: Result<(String, u16), String>)
    ensures
        match r {
            Ok((host, port)) => target_of(url_view(parts)) == Ok::<(Seq<char>, u16), Seq<char>>(
                (host@, port),
            ),
            Err(e) => target_of(url_view(parts)) == Err::<(Seq<char>, u16), Seq<char>>(e@),
        },
{
    match parts {
        Err(e) => Err(text::join("URL inválida: ", e.as_str())),
        Ok(p) => match p.host {
            None => Err("endpoint sem host".to_owned()),
            Some(host) => match p.port {
                None => Err("endpoint sem porta".to_owned()),
                Some(port) => Ok((host, port)),
            },
        },
    }
}

/// `s` in small letters and without its colons.
pub open spec fn pin_of(s: Seq<char>) -> Seq<char>
    decreases s.len(),
{
    if s.len() == 0 {
        s
    } else if s.last() == ':' {
        pin_of(s.drop_last())
    } else {
        pin_of(s.drop_last()).push(text::lower(s.last()))
    }
}

/// A certificate's digest as it is compared: in small letters and without colons.
pub fn normalize_pin(s: &str) -> (r: String)
    ensures
        r@ == pin_of(s@),
{
    let c = text::to_chars(s);
    let mut r = String::new();
    let mut i: usize = 0;
    assert(r@ =~= pin_of(c@.take(0)));
    while i < c.len()
        invariant
            i <= c@.len(),
            r@ == pin_of(c@.take(i as int)),
        decreases c@.len() - i,
    {
        assert(c@.take(i + 1).drop_last() =~= c@.take(i as int));
        if c[i] != ':' {
            r.push(text::ascii_lower(c[i]));
        }
        i = i + 1;
    }
    assert(c@.take(i as int) =~= c@);
    r
}

/// How to connect to a server.
#[derive(Debug)]
pub struct ConnectPlan {
    pub host: String,
    pub port: u16,
    /// Whether to present a bearer token.
    pub needs_bearer: bool,
    /// The digest that the server's certificate must have; none without TLS.
    pub pin: Option<String>,
}

/// Whether `plan` is how to connect to `endpoint` at `host` and `port`.
pub open spec fn is_plan(plan: ConnectPlan, endpoint: EndpointConfig, host: Seq<char>, port: u16) -> bool {
    &&& plan.host@ == host
    &&& plan.port == port
    &&& plan.needs_bearer == (endpoint.scope == EndpointScope::Relay)
    &&& match endpoint.transport {
        Transport::PlaintextLegacy => plan.pin is None,
        Transport::Tls => endpoint.tls_fingerprint is Some && plan.pin is Some
            && plan.pin->Some_0@ == pin_of(endpoint.tls_fingerprint->Some_0@),
    }
}

/// How to connect to `endpoint`, or why not.
pub fn plan_connection(endpoint: &EndpointConfig) -> (r: Result<ConnectPlan, String>)
    ensures
        match endpoint.flaw() {
            Some(flaw) => r matches Err(e) && e@ == ErrorView::Config(flaw).text(),
            None => match target_of(url_parts(endpoint.url@)) {
                Err(e) => r matches Err(f) && f@ == e,
                Ok((host, port)) => r matches Ok(plan) && is_plan(plan, *endpoint, host, port),
            },
        },
{
    match endpoint.validate() {
        Err(e) => {
            return Err(e.to_string());
        },
        Ok(()) => {},
    }
    let (host, port) = match target(parse_url(endpoint.url.as_str())) {
        Ok(t) => t,
        Err(e) => {
            return Err(e);
        },
    };
    let pin = match endpoint.transport {
        Transport::PlaintextLegacy => None,
        Transport::Tls => match &endpoint.tls_fingerprint {
            Some(f) => Some(normalize_pin(f.as_str())),
            None => None,
        },
    };
    Ok(ConnectPlan { host, port, needs_bearer: endpoint.scope == EndpointScope::Relay, pin })
}

/// Where a bearer token is kept.
#[derive(Debug, PartialEq, Eq)]
pub enum CredentialSource {
    /// The file at that path, which must be its owner's alone.
    File(String),
    /// The environment variable of that name.
    Env(String),
}

/// Where the bearer token for `endpoint` is kept.
pub fn credential(endpoint: &EndpointConfig) -> (r: Result<CredentialSource, String>)
    ensures
        match endpoint.credential_ref {
            None => r matches Err(e) && e@ == "credential_ref ausente"@,
            Some(s) => match r {
                Ok(CredentialSource::File(path)) => text::has_prefix(s@, "file:"@) && path@
                    == s@.skip("file:"@.len() as int),
                Ok(CredentialSource::Env(name)) => !text::has_prefix(s@, "file:"@) && name@ == s@,
                Err(_) => false,
            },
        },
{
    match &endpoint.credential_ref {
        None => Err("credential_ref ausente".to_owned()),
        Some(s) => match text::strip_prefix(s.as_str(), "file:") {
            Some(path) => Ok(CredentialSource::File(path)),
            None => Ok(CredentialSource::Env(s.clone())),
        },
    }
}

/// The bearer token that a file holds, where its permissions keep it to its owner.
pub fn bearer_from_file(mode: u32, contents: &str) -> (r: Result<String, String>)
    ensures
        match r {
            Ok(token) => owner_only(mode) && token@ == text::trim_of(contents@),
            Err(e) => !owner_only(mode) && e@ == "arquivo bearer deve ter modo 0600"@,
        },
{
    if !is_owner_only(mode) {
        return Err("arquivo bearer deve ter modo 0600".to_owned());
    }
    Ok(text::trim(contents))
}

/// The header that presents a bearer token.
pub fn bearer_header(token: &str) -> (r: String)
    ensures
        r@ == "Bearer "@ + token@,
{
    text::join("Bearer ", token)
}

/// The first message on a connection that this device opened.
pub fn outbound_hello(device_id: &DeviceId, name: &str, clipboard: &ClipboardConfig, app: &str) -> (r:
    Message)
    ensures
        r@ == (MessageView::Hello {
            v: PROTOCOL_VERSION,
            device: DeviceInfoView {
                id: Some(device_id@),
                name: name@,
                kind: DeviceKind::Linux,
                os_version: None,
                app_version: Some(app@),
                capabilities: Capabilities {
                    text: clipboard.sync_text,
                    html: clipboard.sync_html,
                    images: clipboard.sync_images,
                    files: clipboard.sync_files,
                },
            },
        }),
{
    let device = DeviceInfo::new(name, DeviceKind::Linux).with_app_version(app).with_capabilities(
        Capabilities {
            text: clipboard.sync_text,
            html: clipboard.sync_html,
            images: clipboard.sync_images,
            files: clipboard.sync_files,
        },
    );
    Message::Hello {
        v: PROTOCOL_VERSION,
        device: DeviceInfo { id: Some(device_id.clone()), ..device },
    }
}

/// What the wait for a local server's acceptance comes to.
#[derive(Debug)]
pub enum LanStep {
    Ready,
    Reply(Message),
    Failed(String),
}

/// Takes in a message while a local server's acceptance is waited for.
pub fn lan_handshake(m: &Message) -> (r: LanStep)
    ensures
        match m@ {
            MessageView::PairOk { .. } => r is Ready,
            MessageView::Ping { ts } => r matches LanStep::Reply(reply) && reply@
                == (MessageView::Pong { ts }),
            other => r matches LanStep::Failed(e) && e@ == "handshake LAN inesperado: "@
                + other.kind_name(),
        },
{
    match m {
        Message::PairOk { .. } => LanStep::Ready,
        Message::Ping { ts } => LanStep::Reply(Message::Pong { ts: *ts }),
        other => LanStep::Failed(text::join("handshake LAN inesperado: ", other.kind_name())),
    }
}

/// What an open outbound connection does after something came.
#[derive(Debug)]
pub enum OutboundStep {
    Nothing,
    Reply(Message),
    /// Answer a ping of the transport itself.
    Pong,
    /// Hand the event to the local clipboard.
    Event(ClipboardEvent),
    Failed(String),
}

/// Whether `step` is what `item` comes to on an open outbound connection.
pub open spec fn is_outbound_step(item: Incoming, step: OutboundStep) -> bool {
    match item {
        Incoming::Ended => step matches OutboundStep::Failed(e) && e@ == "peer fechou conexão"@,
        Incoming::Failed(reason) => step matches OutboundStep::Failed(e) && e@ == reason@,
        Incoming::Frame(frame) => match frame {
            Frame::Text { size, message: Err(reason) } => step matches OutboundStep::Failed(e) && e@
                == reason@,
            Frame::Text { size, message: Ok(m) } => match m@ {
                MessageView::Ping { ts } => step matches OutboundStep::Reply(reply) && reply@
                    == (MessageView::Pong { ts }),
                MessageView::Pong { .. } => step is Nothing,
                MessageView::PairOk { .. } => step is Nothing,
                other => match dispatch::event_of(other) {
                    Some(snap) => step matches OutboundStep::Event(event) && event@
                        == EventView::Changed(snap),
                    None => step is Nothing,
                },
            },
            Frame::Ping { size } => step is Pong,
            Frame::Close => step matches OutboundStep::Failed(e) && e@ == "peer fechou conexão"@,
            Frame::Pong { size } => step is Nothing,
            Frame::Binary { size } => step is Nothing,
        },
    }
}

/// Takes in what came on an open outbound connection.
pub fn session_step(item: Incoming) -> (r: OutboundStep)
    ensures
        is_outbound_step(item, r),
{
    match item {
        Incoming::Ended => OutboundStep::Failed("peer fechou conexão".to_owned()),
        Incoming::Failed(e) => OutboundStep::Failed(e),
        Incoming::Frame(frame) => match frame {
            Frame::Text { size: _, message } => match message {
                Err(e) => OutboundStep::Failed(e),
                Ok(m) => match m {
                    Message::Ping { ts } => OutboundStep::Reply(Message::Pong { ts }),
                    Message::Pong { .. } => OutboundStep::Nothing,
                    Message::PairOk { .. } => OutboundStep::Nothing,
                    m => match dispatch::message_to_event(&m) {
                        Some(event) => OutboundStep::Event(event),
                        None => OutboundStep::Nothing,
                    },
                },
            },
            Frame::Ping { size: _ } => OutboundStep::Pong,
            Frame::Close => OutboundStep::Failed("peer fechou conexão".to_owned()),
            Frame::Pong { size: _ } => OutboundStep::Nothing,
            Frame::Binary { size: _ } => OutboundStep::Nothing,
        },
    }
}

/// Which server of a list is tried, and whether one was reached in this round.
#[derive(Debug, Clone, Copy, PartialEq, Eq, Structural)]
pub struct OutboundManager {
    pub count: usize,
    pub index: usize,
    pub reached: bool,
}

impl OutboundManager {
    pub open spec fn wf(self) -> bool {
        self.index < self.count
    }

    /// The first of `count` servers.
    pub fn new(count: usize) -> (r: Option<Self>)
        ensures
            r is Some == (count > 0),
            r matches Some(f) ==> f.wf() && f == (OutboundManager { count, index: 0, reached: false }),
    {
        if count == 0 {
            None
        } else {
            Some(OutboundManager { count, index: 0, reached: false })
        }
    }

    /// The next server, once this one failed or its connection ended.
    pub open spec fn next(self, reached: bool) -> OutboundManager {
        if self.index + 1 < self.count {
            OutboundManager {
                index: (self.index + 1) as usize,
                reached: self.reached || reached,
                ..self
            }
        } else {
            OutboundManager { index: 0, reached: false, ..self }
        }
    }

    /// Whether a whole round has reached no server.
    pub open spec fn round_failed(self, reached: bool) -> bool {
        self.index + 1 >= self.count && !self.reached && !reached
    }

    /// Goes on to the next server once this one failed or its connection ended;
    /// `reached` is whether it had been connected. Whether to wait first: a whole round
    /// reached none.
    pub fn advance(&mut self, reached: bool) -> (r: bool)
        requires
            old(self).wf(),
        ensures
            final(self).wf(),
            *final(self) == old(self).next(reached),
            r == old(self).round_failed(reached),
    {
        let any = self.reached || reached;
        if self.index + 1 < self.count {
            self.index = self.index + 1;
            self.reached = any;
            false
        } else {
            self.index = 0;
            self.reached = false;
            !any
        }
    }
}

/// Which server comes after `n` failures in a row.
pub open spec fn after_failures(m: OutboundManager, n: nat) -> OutboundManager
    decreases n,
{
    if n == 0 {
        m
    } else {
        after_failures(m, (n - 1) as nat).next(false)
    }
}

/// While none can be reached, every server is tried once, in order, before the first is
/// tried again; the wait comes at the end of the round and not before.
pub proof fn law_round_tries_every_server(count: usize, n: nat)
    requires
        n < count,
    ensures
        ({
            let m = after_failures(OutboundManager { count, index: 0, reached: false }, n);
            &&& m == (OutboundManager { count, index: n as usize, reached: false })
            &&& m.round_failed(false) <==> n + 1 == count
            &&& n + 1 == count ==> m.next(false).index == 0
        }),
    decreases n,
{
    if n > 0 {
        law_round_tries_every_server(count, (n - 1) as nat);
    }
}

proof fn lemma_scope_filters(
    l: Seq<EndpointConfig>,
    scope: EndpointScope,
    p: spec_fn(EndpointConfig) -> bool,
)
    requires
        forall|e: EndpointConfig| #[trigger] p(e) == (e.scope == scope),
    ensures
        of_scope(l, scope) == l.filter(p),
    decreases l.len(),
{
    reveal(Seq::filter);
    if l.len() > 0 {
        lemma_scope_filters(l.drop_last(), scope, p);
    }
}

/// The servers of the chosen route are tried in the order of the settings; with both routes,
/// all local ones and then all relays.
pub proof fn law_order_of_servers(config: &Config, r: Vec<EndpointConfig>)
    requires
        call_ensures(ordered_endpoints, (config,), r),
    ensures
        ({
            let lan = config.endpoints@.filter(|e: EndpointConfig| e.scope == EndpointScope::Lan);
            let relay = config.endpoints@.filter(
                |e: EndpointConfig| e.scope == EndpointScope::Relay,
            );
            &&& config.security.outbound_route == OutboundRoute::Lan ==> r@ == lan
            &&& config.security.outbound_route == OutboundRoute::Relay ==> r@ == relay
            &&& config.security.outbound_route == OutboundRoute::Auto ==> r@ == lan + relay
        }),
{
    let p = |e: EndpointConfig| e.scope == EndpointScope::Lan;
    let q = |e: EndpointConfig| e.scope == EndpointScope::Relay;
    lemma_scope_filters(config.endpoints@, EndpointScope::Lan, p);
    lemma_scope_filters(config.endpoints@, EndpointScope::Relay, q);
}

/// Whether `s` holds neither a capital nor a colon.
pub open spec fn is_bare(s: Seq<char>) -> bool {
    forall|i: int| 0 <= i < s.len() ==> #[trigger] s[i] != ':' && !('A' <= s[i] <= 'Z')
}

proof fn lemma_pin_bare(s: Seq<char>)
    requires
        is_bare(s),
    ensures
        pin_of(s) == s,
    decreases s.len(),
{
    if s.len() > 0 {
        assert(s.last() == s[s.len() - 1]);
        assert forall|i: int| 0 <= i < s.drop_last().len() implies #[trigger] s.drop_last()[i] != ':'
            && !('A' <= s.drop_last()[i] <= 'Z') by {
            assert(s.drop_last()[i] == s[i]);
        }
        lemma_pin_bare(s.drop_last());
        assert(s.drop_last().push(s.last()) =~= s);
    }
}

proof fn lemma_pin_clean(s: Seq<char>)
    ensures
        is_bare(pin_of(s)),
    decreases s.len(),
{
    if s.len() > 0 {
        lemma_pin_clean(s.drop_last());
    }
}

proof fn lemma_pin_joins(a: Seq<char>, b: Seq<char>)
    ensures
        pin_of(a + b) == pin_of(a) + pin_of(b),
    decreases b.len(),
{
    if b.len() == 0 {
        assert(a + b =~= a);
        assert(pin_of(a) + pin_of(b) =~= pin_of(a));
    } else {
        assert((a + b).drop_last() =~= a + b.drop_last());
        lemma_pin_joins(a, b.drop_last());
        assert(pin_of(a + b) =~= pin_of(a) + pin_of(b));
    }
}

/// A pin is compared in small letters and without colons: one that is so already stays, what
/// comes out always is so, and the parts of a pin are taken one by one.
pub proof fn law_pins(
    s: &str,
    r: String,
    a: &str,
    b: &str,
    ra: String,
    rb: String,
)
    requires
        call_ensures(normalize_pin, (s,), r),
        call_ensures(normalize_pin, (a,), ra),
        call_ensures(normalize_pin, (b,), rb),
    ensures
        is_bare(r@),
        is_bare(s@) ==> r@ == s@,
        s@ == a@ + b@ ==> r@ == ra@ + rb@,
        s@.len() == 1 && 'A' <= s@[0] <= 'Z' ==> r@.len() == 1 && r@[0] as u32 == s@[0] as u32 + 32,
        s@ == seq![':'] ==> r@.len() == 0,
{
    lemma_pin_clean(s@);
    if is_bare(s@) {
        lemma_pin_bare(s@);
    }
    lemma_pin_joins(a@, b@);
    if s@.len() == 1 {
        assert(s@.drop_last() =~= Seq::<char>::empty());
        assert(pin_of(Seq::<char>::empty()) =~= Seq::<char>::empty());
        assert(s@.last() == s@[0]);
    }
}

/// A connection goes to the host and port of the URL, presents a token to a relay alone, and
/// under TLS trusts the pinned certificate alone.
pub proof fn law_connections(
    e: &EndpointConfig,
    valid: Result<(), crate::error::Error>,
    parts: Result<UrlParts, String>,
    place: Result<(String, u16), String>,
    r: Result<ConnectPlan, String>,
    pin: &str,
    compared: String,
)
    requires
        call_ensures(plan_connection, (e,), r),
        call_ensures(EndpointConfig::validate, (e,), valid),
        url_view(parts) == url_parts(e.url@),
        call_ensures(target, (parts,), place),
        call_ensures(normalize_pin, (pin,), compared),
    ensures
        r is Ok <==> valid is Ok && place is Ok,
        r is Ok ==> r->Ok_0.host@ == place->Ok_0.0@ && r->Ok_0.port == place->Ok_0.1,
        r is Ok ==> (r->Ok_0.needs_bearer <==> e.scope == EndpointScope::Relay),
        r is Ok ==> (r->Ok_0.pin is Some <==> e.transport == Transport::Tls),
        r is Ok && e.tls_fingerprint is Some && e.tls_fingerprint->Some_0@ == pin@ && e.transport
            == Transport::Tls ==> r->Ok_0.pin->Some_0@ == compared@,
        place is Ok <==> parts is Ok && parts->Ok_0.host is Some && parts->Ok_0.port is Some,
        place is Ok ==> place->Ok_0.0@ == parts->Ok_0.host->Some_0@ && place->Ok_0.1
            == parts->Ok_0.port->Some_0,
{
    if parts is Ok {
        assert(parts->Ok_0@.host == crate::protocol::opt_view(parts->Ok_0.host));
    }
}

/// A token comes from the file after `file:`, or from the variable that is named; a file's
/// token is what it holds but for the space around it, where the file is its owner's alone.
pub proof fn law_credentials(
    e: &EndpointConfig,
    r: Result<CredentialSource, String>,
    path: Seq<char>,
    mode: u32,
    contents: &str,
    token: Result<String, String>,
    header: String,
    presented: &str,
)
    requires
        call_ensures(credential, (e,), r),
        call_ensures(bearer_from_file, (mode, contents), token),
        call_ensures(bearer_header, (presented,), header),
    ensures
        r is Ok <==> e.credential_ref is Some,
        e.credential_ref is Some && e.credential_ref->Some_0@ == "file:"@ + path ==> r->Ok_0 is File
            && r->Ok_0->File_0@ == path,
        r is Ok && r->Ok_0 is Env ==> r->Ok_0->Env_0@ == e.credential_ref->Some_0@,
        token is Ok <==> mode & 0o77 == 0,
        token is Ok ==> token->Ok_0@ == text::trim_of(contents@),
        header@ == "Bearer "@ + presented@,
{
    reveal_strlit("file:");
    assert(("file:"@ + path).take(5) =~= "file:"@);
    assert(("file:"@ + path).skip(5) =~= path);
    assert((mode & 0o77 == 0) == (mode % 64 == 0)) by (bit_vector);
}

/// A local server lets this device in by `pair_ok` and by nothing else; a ping is answered
/// with its own time.
pub proof fn law_local_entry(m: Message, r: LanStep)
    requires
        call_ensures(lan_handshake, (&m,), r),
    ensures
        r is Ready <==> m is PairOk,
        m is Ping ==> r is Reply && r->Reply_0@ == (MessageView::Pong { ts: m->Ping_ts }),
        !(m is PairOk || m is Ping) ==> r is Failed,
{
    assert(m@ is PairOk <==> m is PairOk);
    assert(m@ is Ping <==> m is Ping);
}

/// What comes on a connection that this device opened: content goes to the local clipboard
/// as what it stands for, a ping is answered with its own time, and the end is an error.
pub proof fn law_outbound_content(
    item: Incoming,
    r: OutboundStep,
    event: Option<ClipboardEvent>,
)
    requires
        call_ensures(session_step, (item,), r),
        item is Frame && item->Frame_0 is Text && item->Frame_0->message is Ok ==> call_ensures(
            dispatch::message_to_event,
            (&item->Frame_0->message->Ok_0,),
            event,
        ),
    ensures
        item is Ended || item is Failed ==> r is Failed,
        item is Frame && item->Frame_0 is Close ==> r is Failed,
        item is Frame && item->Frame_0 is Ping ==> r is Pong,
        item is Frame && (item->Frame_0 is Pong || item->Frame_0 is Binary) ==> r is Nothing,
        item is Frame && item->Frame_0 is Text && item->Frame_0->message is Err ==> r is Failed,
        item is Frame && item->Frame_0 is Text && item->Frame_0->message is Ok ==> {
            let m = item->Frame_0->message->Ok_0;
            &&& m is Ping ==> r is Reply && r->Reply_0@ == (MessageView::Pong { ts: m->Ping_ts })
            &&& m is Pong || m is PairOk ==> r is Nothing
            &&& !(m is Ping || m is Pong || m is PairOk) ==> (r is Event <==> event is Some) && (r
                is Event ==> r->Event_0@ == event->Some_0@) && (event is None ==> r is Nothing)
        },
{
    if item is Frame && item->Frame_0 is Text && item->Frame_0->message is Ok {
        let m = item->Frame_0->message->Ok_0;
        assert(m@ is Ping <==> m is Ping);
        assert(m@ is Pong <==> m is Pong);
        assert(m@ is PairOk <==> m is PairOk);
    }
}

/// After a server the next one is tried, and after the last the first; there is a wait
/// exactly at the end of a round in which none was reached.
pub proof fn law_next_server(m: &mut OutboundManager, reached: bool, r: bool)
    requires
        call_ensures(OutboundManager::advance, (m, reached), r),
        old(m).index < old(m).count,
    ensures
        final(m).count == old(m).count,
        old(m).index + 1 < old(m).count ==> final(m).index == old(m).index + 1 && final(m).reached
            == (old(m).reached || reached),
        old(m).index + 1 == old(m).count ==> final(m).index == 0 && !final(m).reached,
        r <==> old(m).index + 1 == old(m).count && !old(m).reached && !reached,
{
}

/// This device greets another server as itself, with what it takes part in.
pub proof fn law_outbound_greeting(
    id: &DeviceId,
    name: &str,
    clipboard: &ClipboardConfig,
    app: &str,
    r: Message,
)
    requires
        call_ensures(outbound_hello, (id, name, clipboard, app), r),
    ensures
        r is Hello && r->v == 1,
        r->device@.id == Some(id.0@) && r->device@.name == name@ && r->device@.kind
            == DeviceKind::Linux,
        r->device@.capabilities.text == clipboard.sync_text && r->device@.capabilities.html
            == clipboard.sync_html && r->device@.capabilities.images == clipboard.sync_images
            && r->device@.capabilities.files == clipboard.sync_files,
{
    assert(r@ is Hello);
}

} // verus!
