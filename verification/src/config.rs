//! Settings of the daemon.

use vstd::prelude::*;

use crate::encoding;
use crate::entropy;
use crate::error::{Error, ErrorView};
use crate::protocol::{clone_text, DeviceId};
use crate::text;

verus! {

/// The service type that the daemon is announced under.
pub const SERVICE_TYPE: &'static str = "_clipsync._tcp.local.";

/// Where the server listens by default.
pub const DEFAULT_BIND: &'static str = "0.0.0.0:8765";

/// The server's name by default.
pub const DEFAULT_NAME: &'static str = "linux-desktop";

/// The settings as a whole.
#[derive(Debug)]
pub struct Config {
    pub bind: String,
    pub name: String,
    /// The daemon's own identifier, the stable origin of what it sends. Made on the
    /// first load.
    pub device_id: Option<DeviceId>,
    pub discovery: DiscoveryConfig,
    pub clipboard: ClipboardConfig,
    pub limits: LimitsConfig,
    pub security: SecurityConfig,
    /// The servers to connect to.
    pub endpoints: Vec<EndpointConfig>,
}

impl Default for Config {
    fn default() -> (r: Self)
        ensures
            r.bind@ == DEFAULT_BIND@,
            r.name@ == DEFAULT_NAME@,
            r.device_id is None,
            r.discovery.is_default(),
            r.clipboard.is_default(),
            r.limits == default_limits(),
            r.security.is_default(),
            r.endpoints@.len() == 0,
    {
        Config {
            bind: DEFAULT_BIND.to_owned(),
            name: DEFAULT_NAME.to_owned(),
            device_id: None,
            discovery: DiscoveryConfig::default(),
            clipboard: ClipboardConfig::default(),
            limits: LimitsConfig::default(),
            security: SecurityConfig::default(),
            endpoints: Vec::new(),
        }
    }
}

#[derive(Debug)]
pub struct DiscoveryConfig {
    pub enable_mdns: bool,
    pub service_type: String,
}

impl DiscoveryConfig {
    pub open spec fn is_default(self) -> bool {
        self.enable_mdns && self.service_type@ == SERVICE_TYPE@
    }
}

impl Default for DiscoveryConfig {
    fn default() -> (r: Self)
        ensures
            r.is_default(),
    {
        DiscoveryConfig { enable_mdns: true, service_type: SERVICE_TYPE.to_owned() }
    }
}

impl Clone for DiscoveryConfig {
    fn clone(&self) -> (r: Self)
        ensures
            r == *self,
    {
        DiscoveryConfig { enable_mdns: self.enable_mdns, service_type: self.service_type.clone() }
    }
}

#[derive(Debug)]
pub struct ClipboardConfig {
    pub sync_text: bool,
    pub sync_images: bool,
    pub sync_html: bool,
    pub sync_files: bool,
    /// `auto`, `wayland` or `x11`.
    pub backend: String,
    pub max_image_bytes: u64,
    /// The limit for text and for markup.
    pub max_text_bytes: u64,
    pub poll_interval_ms: u64,
}

/// Room for what a message holds beside its content.
pub const JSON_ENVELOPE_OVERHEAD: u128 = 8_192;

/// The smaller of two numbers.
pub open spec fn min(a: int, b: int) -> int {
    if a < b {
        a
    } else {
        b
    }
}

/// The larger of two numbers.
pub open spec fn max(a: int, b: int) -> int {
    if a < b {
        b
    } else {
        a
    }
}

impl ClipboardConfig {
    pub open spec fn is_default(self) -> bool {
        &&& self.sync_text
        &&& self.sync_images
        &&& !self.sync_html
        &&& !self.sync_files
        &&& self.backend@ == "auto"@
        &&& self.max_image_bytes == 26_214_400
        &&& self.max_text_bytes == 16_777_216
        &&& self.poll_interval_ms == 250
    }

    /// The largest message that can carry valid content. Each byte of text may take six
    /// in JSON, and three bytes of an image take four in base64.
    pub open spec fn message_limit(self) -> int {
        max(
            min(self.max_text_bytes * 6 + 8_192, usize::MAX as int),
            min((self.max_image_bytes + 2) / 3 * 4 + 8_192, usize::MAX as int),
        )
    }

    /// The largest message that can carry valid content.
    pub fn max_websocket_message_bytes(&self) -> (r: usize)
        ensures
            r == self.message_limit(),
    {
        let max_usize: u128 = usize::MAX as u128;
        let text_json: u128 = self.max_text_bytes as u128 * 6 + JSON_ENVELOPE_OVERHEAD;
        let image_json: u128 = (self.max_image_bytes as u128 + 2) / 3 * 4 + JSON_ENVELOPE_OVERHEAD;
        let text_json: u128 = if text_json < max_usize { text_json } else { max_usize };
        let image_json: u128 = if image_json < max_usize { image_json } else { max_usize };
        if text_json < image_json {
            image_json as usize
        } else {
            text_json as usize
        }
    }
}

/// An image within its limit fits in a message, with 8 KiB to spare, unless memory
/// itself is the limit.
pub proof fn law_message_limit_covers_images(cfg: ClipboardConfig, image: Seq<u8>)
    requires
        image.len() <= cfg.max_image_bytes,
        cfg.message_limit() < usize::MAX,
    ensures
        encoding::base64_of(image).len() + 8_192 <= cfg.message_limit(),
{
    encoding::lemma_base64_len(image);
}

/// Text within its limit fits in a message, with 8 KiB to spare, when each of its bytes
/// is written with at most six, unless memory itself is the limit.
pub proof fn law_message_limit_covers_text(cfg: ClipboardConfig, size: nat, written: nat)
    requires
        size <= cfg.max_text_bytes,
        written <= size * 6,
        cfg.message_limit() < usize::MAX,
    ensures
        written + 8_192 <= cfg.message_limit(),
{
}

impl Default for ClipboardConfig {
    fn default() -> (r: Self)
        ensures
            r.is_default(),
    {
        ClipboardConfig {
            sync_text: true,
            sync_images: true,
            sync_html: false,
            sync_files: false,
            backend: "auto".to_owned(),
            max_image_bytes: 26_214_400,
            max_text_bytes: 16_777_216,
            poll_interval_ms: 250,
        }
    }
}

impl Clone for ClipboardConfig {
    fn clone(&self) -> (r: Self)
        ensures
            r == *self,
    {
        ClipboardConfig { backend: self.backend.clone(), ..*self }
    }
}

/// Limits for each source address. Zero means no limit.
#[derive(Debug, Clone, Copy, PartialEq, Eq, Structural)]
pub struct LimitsConfig {
    pub max_connections: usize,
    pub messages_per_minute: u32,
    pub bytes_per_minute: u64,
}

pub open spec fn default_limits() -> LimitsConfig {
    LimitsConfig { max_connections: 256, messages_per_minute: 120, bytes_per_minute: 67_108_864 }
}

impl Default for LimitsConfig {
    fn default() -> (r: Self)
        ensures
            r == default_limits(),
    {
        LimitsConfig {
            max_connections: 256,
            messages_per_minute: 120,
            bytes_per_minute: 67_108_864,
        }
    }
}

#[derive(Debug, Clone, Copy, PartialEq, Eq, Structural)]
pub enum Transport {
    Tls,
    /// Without encryption, for old clients only.
    PlaintextLegacy,
}

impl Default for Transport {
    fn default() -> (r: Self)
        ensures
            r == Transport::Tls,
    {
        Transport::Tls
    }
}

/// Which servers are connected to.
#[derive(Debug, Clone, Copy, PartialEq, Eq, Structural)]
pub enum OutboundRoute {
    Lan,
    Relay,
    /// Both, those on the local network first.
    Auto,
}

impl Default for OutboundRoute {
    fn default() -> (r: Self)
        ensures
            r == OutboundRoute::Auto,
    {
        OutboundRoute::Auto
    }
}

#[derive(Debug)]
pub struct SecurityConfig {
    pub transport: Transport,
    /// Whether only local addresses may connect.
    pub local_only: bool,
    pub pairing_timeout_secs: u64,
    pub tls_cert_path: Option<String>,
    pub tls_key_path: Option<String>,
    /// The only certificate to start with, if set.
    pub tls_fingerprint: Option<String>,
    pub outbound_route: OutboundRoute,
}

impl SecurityConfig {
    pub open spec fn is_default(self) -> bool {
        self == SecurityConfig {
            transport: Transport::Tls,
            local_only: true,
            pairing_timeout_secs: 120,
            tls_cert_path: None,
            tls_key_path: None,
            tls_fingerprint: None,
            outbound_route: OutboundRoute::Auto,
        }
    }
}

impl Default for SecurityConfig {
    fn default() -> (r: Self)
        ensures
            r.is_default(),
    {
        SecurityConfig {
            transport: Transport::Tls,
            local_only: true,
            pairing_timeout_secs: 120,
            tls_cert_path: None,
            tls_key_path: None,
            tls_fingerprint: None,
            outbound_route: OutboundRoute::Auto,
        }
    }
}

impl Clone for SecurityConfig {
    fn clone(&self) -> (r: Self)
        ensures
            r == *self,
    {
        SecurityConfig {
            transport: self.transport,
            local_only: self.local_only,
            pairing_timeout_secs: self.pairing_timeout_secs,
            tls_cert_path: clone_text(&self.tls_cert_path),
            tls_key_path: clone_text(&self.tls_key_path),
            tls_fingerprint: clone_text(&self.tls_fingerprint),
            outbound_route: self.outbound_route,
        }
    }
}

/// What sort of server an endpoint is.
#[derive(Debug, Clone, Copy, PartialEq, Eq, Structural)]
pub enum EndpointScope {
    Lan,
    Relay,
}

/// A server to connect to.
#[derive(Debug)]
pub struct EndpointConfig {
    pub name: String,
    pub url: String,
    pub transport: Transport,
    /// The SHA-256 digest of the server's certificate, in hexadecimal.
    pub tls_fingerprint: Option<String>,
    /// Where the token is: an environment variable, or `file:` and a path.
    pub credential_ref: Option<String>,
    pub scope: EndpointScope,
}

impl Clone for EndpointConfig {
    fn clone(&self) -> (r: Self)
        ensures
            r == *self,
    {
        EndpointConfig {
            name: self.name.clone(),
            url: self.url.clone(),
            transport: self.transport,
            tls_fingerprint: clone_text(&self.tls_fingerprint),
            credential_ref: clone_text(&self.credential_ref),
            scope: self.scope,
        }
    }
}

impl EndpointConfig {
    /// What is wrong with the endpoint, if anything: the URL's scheme must fit the
    /// transport, TLS needs a pin, and a relay needs TLS and a credential.
    pub open spec fn flaw(self) -> Option<Seq<char>> {
        if self.scope == EndpointScope::Relay && self.transport != Transport::Tls {
            Some("endpoint relay exige TLS"@)
        } else if self.transport == Transport::Tls && !text::has_prefix(self.url@, "wss://"@) {
            Some("endpoint TLS exige URL wss://"@)
        } else if self.transport == Transport::PlaintextLegacy && !text::has_prefix(
            self.url@,
            "ws://"@,
        ) {
            Some("endpoint plaintext_legacy exige URL ws://"@)
        } else if self.transport == Transport::Tls && self.tls_fingerprint is None {
            Some("TLS outbound exige pin SHA-256"@)
        } else if self.scope == EndpointScope::Relay && self.credential_ref is None {
            Some("credential_ref ausente"@)
        } else {
            None
        }
    }

    /// Accepts an endpoint that can be connected to as it is configured.
    pub fn validate(&self) -> (r: Result<(), Error>)
        ensures
            r is Ok == self.flaw() is None,
            r matches Err(e) ==> self.flaw() is Some && e@ == ErrorView::Config(
                self.flaw()->Some_0,
            ),
    {
        if self.scope == EndpointScope::Relay && self.transport != Transport::Tls {
            return Err(Error::Config("endpoint relay exige TLS".to_owned()));
        }
        if self.transport == Transport::Tls && !text::starts_with(self.url.as_str(), "wss://") {
            return Err(Error::Config("endpoint TLS exige URL wss://".to_owned()));
        }
        if self.transport == Transport::PlaintextLegacy && !text::starts_with(
            self.url.as_str(),
            "ws://",
        ) {
            return Err(Error::Config("endpoint plaintext_legacy exige URL ws://".to_owned()));
        }
        if self.transport == Transport::Tls && self.tls_fingerprint.is_none() {
            return Err(Error::Config("TLS outbound exige pin SHA-256".to_owned()));
        }
        if self.scope == EndpointScope::Relay && self.credential_ref.is_none() {
            return Err(Error::Config("credential_ref ausente".to_owned()));
        }
        Ok(())
    }
}

/// The value of an environment variable.
#[derive(Debug, PartialEq, Eq)]
pub enum EnvValue {
    Text(String),
    NotUtf8,
}

/// The environment variables that override settings, those that are set.
#[derive(Debug)]
pub struct EnvOverrides {
    pub bind: Option<EnvValue>,
    pub name: Option<EnvValue>,
    pub enable_mdns: Option<EnvValue>,
    pub transport: Option<EnvValue>,
    pub local_only: Option<EnvValue>,
    pub max_connections: Option<EnvValue>,
    pub messages_per_minute: Option<EnvValue>,
    pub bytes_per_minute: Option<EnvValue>,
}

/// The truth value that `s` writes.
pub open spec fn parsed_bool(s: Seq<char>) -> Option<bool> {
    if s == "true"@ {
        Some(true)
    } else if s == "false"@ {
        Some(false)
    } else {
        None
    }
}

/// What is wrong with a variable that holds a text, if anything.
pub open spec fn text_flaw(v: Option<EnvValue>, name: Seq<char>) -> Option<Seq<char>> {
    if v == Some(EnvValue::NotUtf8) {
        Some(name + " nao e UTF-8"@)
    } else {
        None
    }
}

/// What is wrong with a variable that holds a truth value, if anything.
pub open spec fn bool_flaw(v: Option<EnvValue>, name: Seq<char>) -> Option<Seq<char>> {
    match v {
        None => None,
        Some(EnvValue::NotUtf8) => Some(name + " nao e UTF-8"@),
        Some(EnvValue::Text(s)) => if parsed_bool(s@) is None {
            Some(name + " tem valor invalido"@)
        } else {
            None
        },
    }
}

/// What is wrong with a variable that holds a number up to `max`, if anything.
pub open spec fn number_flaw(v: Option<EnvValue>, name: Seq<char>, max: nat) -> Option<Seq<char>> {
    match v {
        None => None,
        Some(EnvValue::NotUtf8) => Some(name + " nao e UTF-8"@),
        Some(EnvValue::Text(s)) => if text::parsed(s@, max) is None {
            Some(name + " tem valor invalido"@)
        } else {
            None
        },
    }
}

/// What is wrong with the variable for the transport, if anything.
pub open spec fn transport_flaw(v: Option<EnvValue>) -> Option<Seq<char>> {
    match v {
        None => None,
        Some(EnvValue::Text(s)) if s@ == "tls"@ || s@ == "plaintext_legacy"@ => None,
        _ => Some("CLIPSYNC_SECURITY_TRANSPORT deve ser tls ou plaintext_legacy"@),
    }
}

/// The first of two that is there.
pub open spec fn first_flaw(a: Option<Seq<char>>, b: Option<Seq<char>>) -> Option<Seq<char>> {
    if a is Some {
        a
    } else {
        b
    }
}

impl EnvOverrides {
    /// What is wrong with the first variable that is wrong, if one is.
    pub open spec fn flaw(self) -> Option<Seq<char>> {
        first_flaw(
            text_flaw(self.bind, "CLIPSYNC_BIND"@),
            first_flaw(
                text_flaw(self.name, "CLIPSYNC_NAME"@),
                first_flaw(
                    bool_flaw(self.enable_mdns, "CLIPSYNC_DISCOVERY_ENABLE_MDNS"@),
                    first_flaw(
                        transport_flaw(self.transport),
                        first_flaw(
                            bool_flaw(self.local_only, "CLIPSYNC_SECURITY_LOCAL_ONLY"@),
                            first_flaw(
                                number_flaw(
                                    self.max_connections,
                                    "CLIPSYNC_LIMITS_MAX_CONNECTIONS"@,
                                    usize::MAX as nat,
                                ),
                                first_flaw(
                                    number_flaw(
                                        self.messages_per_minute,
                                        "CLIPSYNC_LIMITS_MESSAGES_PER_MINUTE"@,
                                        u32::MAX as nat,
                                    ),
                                    number_flaw(
                                        self.bytes_per_minute,
                                        "CLIPSYNC_LIMITS_BYTES_PER_MINUTE"@,
                                        u64::MAX as nat,
                                    ),
                                ),
                            ),
                        ),
                    ),
                ),
            ),
        )
    }
}

/// The text of a variable, or what was there before.
pub open spec fn text_or(v: Option<EnvValue>, s: Seq<char>) -> Seq<char> {
    match v {
        Some(EnvValue::Text(t)) => t@,
        _ => s,
    }
}

/// The truth value of a variable, or what was there before.
pub open spec fn bool_or(v: Option<EnvValue>, b: bool) -> bool {
    match v {
        Some(EnvValue::Text(t)) => parsed_bool(t@)->Some_0,
        _ => b,
    }
}

/// The number of a variable, or what was there before.
pub open spec fn number_or(v: Option<EnvValue>, max: nat, n: nat) -> nat {
    match v {
        Some(EnvValue::Text(t)) => text::parsed(t@, max)->Some_0,
        _ => n,
    }
}

fn parse_text(v: &Option<EnvValue>, name: &str, current: &String) -> (r: Result<String, Error>)
    ensures
        match r {
            Ok(s) => text_flaw(*v, name@) is None && s@ == text_or(*v, current@),
            Err(e) => text_flaw(*v, name@) is Some && e@ == ErrorView::Config(
                text_flaw(*v, name@)->Some_0,
            ),
        },
{
    match v {
        None => Ok(current.clone()),
        Some(EnvValue::Text(s)) => Ok(s.clone()),
        Some(EnvValue::NotUtf8) => Err(Error::Config(text::join(name, " nao e UTF-8"))),
    }
}

/// The truth value of a variable, `current` where it is not set.
pub fn parse_bool(v: &Option<EnvValue>, name: &str, current: bool) -> (r: Result<bool, Error>)
    ensures
        match r {
            Ok(b) => bool_flaw(*v, name@) is None && b == bool_or(*v, current),
            Err(e) => bool_flaw(*v, name@) is Some && e@ == ErrorView::Config(
                bool_flaw(*v, name@)->Some_0,
            ),
        },
{
    match v {
        None => Ok(current),
        Some(EnvValue::Text(s)) => {
            proof {
                reveal_strlit("true");
                reveal_strlit("false");
                assert("true"@.len() != "false"@.len());
            }
            if text::same(s.as_str(), "true") {
                Ok(true)
            } else if text::same(s.as_str(), "false") {
                Ok(false)
            } else {
                Err(Error::Config(text::join(name, " tem valor invalido")))
            }
        },
        Some(EnvValue::NotUtf8) => Err(Error::Config(text::join(name, " nao e UTF-8"))),
    }
}

/// The number of a variable, `current` where it is not set.
pub fn parse_env(v: &Option<EnvValue>, name: &str, max: u64, current: u64) -> (r: Result<u64, Error>)
    ensures
        match r {
            Ok(n) => number_flaw(*v, name@, max as nat) is None && n == number_or(
                *v,
                max as nat,
                current as nat,
            ),
            Err(e) => number_flaw(*v, name@, max as nat) is Some && e@ == ErrorView::Config(
                number_flaw(*v, name@, max as nat)->Some_0,
            ),
        },
{
    match v {
        None => Ok(current),
        Some(EnvValue::Text(s)) => match text::parse_number(s.as_str(), max) {
            Some(n) => Ok(n),
            None => Err(Error::Config(text::join(name, " tem valor invalido"))),
        },
        Some(EnvValue::NotUtf8) => Err(Error::Config(text::join(name, " nao e UTF-8"))),
    }
}

fn parse_transport(v: &Option<EnvValue>, current: Transport) -> (r: Result<Transport, Error>)
    ensures
        match r {
            Ok(t) => transport_flaw(*v) is None && t == match *v {
                Some(EnvValue::Text(s)) => if s@ == "tls"@ {
                    Transport::Tls
                } else {
                    Transport::PlaintextLegacy
                },
                _ => current,
            },
            Err(e) => transport_flaw(*v) is Some && e@ == ErrorView::Config(
                transport_flaw(*v)->Some_0,
            ),
        },
{
    match v {
        None => Ok(current),
        Some(EnvValue::Text(s)) => if text::same(s.as_str(), "tls") {
            Ok(Transport::Tls)
        } else if text::same(s.as_str(), "plaintext_legacy") {
            Ok(Transport::PlaintextLegacy)
        } else {
            Err(
                Error::Config(
                    "CLIPSYNC_SECURITY_TRANSPORT deve ser tls ou plaintext_legacy".to_owned(),
                ),
            )
        },
        Some(EnvValue::NotUtf8) => Err(
            Error::Config(
                "CLIPSYNC_SECURITY_TRANSPORT deve ser tls ou plaintext_legacy".to_owned(),
            ),
        ),
    }
}

/// The settings with what the environment says in place of what the file said. A
/// variable that cannot be read is an error.
pub fn apply_env(cfg: Config, env: &EnvOverrides) -> (r: Result<Config, Error>)
    ensures
        match r {
            Err(e) => env.flaw() is Some && e@ == ErrorView::Config(env.flaw()->Some_0),
            Ok(c) => {
                &&& env.flaw() is None
                &&& c.bind@ == text_or(env.bind, cfg.bind@)
                &&& c.name@ == text_or(env.name, cfg.name@)
                &&& c.device_id == cfg.device_id
                &&& c.discovery == (DiscoveryConfig {
                    enable_mdns: bool_or(env.enable_mdns, cfg.discovery.enable_mdns),
                    ..cfg.discovery
                })
                &&& c.clipboard == cfg.clipboard
                &&& c.limits.max_connections == number_or(
                    env.max_connections,
                    usize::MAX as nat,
                    cfg.limits.max_connections as nat,
                )
                &&& c.limits.messages_per_minute == number_or(
                    env.messages_per_minute,
                    u32::MAX as nat,
                    cfg.limits.messages_per_minute as nat,
                )
                &&& c.limits.bytes_per_minute == number_or(
                    env.bytes_per_minute,
                    u64::MAX as nat,
                    cfg.limits.bytes_per_minute as nat,
                )
                &&& c.security == (SecurityConfig {
                    transport: match env.transport {
                        Some(EnvValue::Text(s)) => if s@ == "tls"@ {
                            Transport::Tls
                        } else {
                            Transport::PlaintextLegacy
                        },
                        _ => cfg.security.transport,
                    },
                    local_only: bool_or(env.local_only, cfg.security.local_only),
                    ..cfg.security
                })
                &&& c.endpoints == cfg.endpoints
            },
        },
{
    let bind = match parse_text(&env.bind, "CLIPSYNC_BIND", &cfg.bind) {
        Ok(v) => v,
        Err(e) => {
            return Err(e);
        },
    };
    let name = match parse_text(&env.name, "CLIPSYNC_NAME", &cfg.name) {
        Ok(v) => v,
        Err(e) => {
            return Err(e);
        },
    };
    let enable_mdns = match parse_bool(
        &env.enable_mdns,
        "CLIPSYNC_DISCOVERY_ENABLE_MDNS",
        cfg.discovery.enable_mdns,
    ) {
        Ok(v) => v,
        Err(e) => {
            return Err(e);
        },
    };
    let transport = match parse_transport(&env.transport, cfg.security.transport) {
        Ok(v) => v,
        Err(e) => {
            return Err(e);
        },
    };
    let local_only = match parse_bool(
        &env.local_only,
        "CLIPSYNC_SECURITY_LOCAL_ONLY",
        cfg.security.local_only,
    ) {
        Ok(v) => v,
        Err(e) => {
            return Err(e);
        },
    };
    let max_connections: u64 = match parse_env(
        &env.max_connections,
        "CLIPSYNC_LIMITS_MAX_CONNECTIONS",
        usize::MAX as u64,
        cfg.limits.max_connections as u64,
    ) {
        Ok(v) => v,
        Err(e) => {
            return Err(e);
        },
    };
    let messages: u64 = match parse_env(
        &env.messages_per_minute,
        "CLIPSYNC_LIMITS_MESSAGES_PER_MINUTE",
        u32::MAX as u64,
        cfg.limits.messages_per_minute as u64,
    ) {
        Ok(v) => v,
        Err(e) => {
            return Err(e);
        },
    };
    let bytes: u64 = match parse_env(
        &env.bytes_per_minute,
        "CLIPSYNC_LIMITS_BYTES_PER_MINUTE",
        u64::MAX,
        cfg.limits.bytes_per_minute,
    ) {
        Ok(v) => v,
        Err(e) => {
            return Err(e);
        },
    };
    let limits = LimitsConfig {
        max_connections: max_connections as usize,
        messages_per_minute: messages as u32,
        bytes_per_minute: bytes,
    };
    let discovery = DiscoveryConfig { enable_mdns, ..cfg.discovery };
    let security = SecurityConfig { transport, local_only, ..cfg.security };
    Ok(
        Config {
            bind,
            name,
            device_id: cfg.device_id,
            discovery,
            clipboard: cfg.clipboard,
            limits,
            security,
            endpoints: cfg.endpoints,
        },
    )
}

impl Config {
    /// The settings to start with: those that were loaded, or the defaults where there
    /// was no file, with an identifier of their own; and whether they are to be saved.
    /// An identifier that was there stays.
    pub fn settle(loaded: Option<Config>) -> (r: (Config, bool))
        ensures
            r.0.device_id is Some,
            match loaded {
                None => r.1 && entropy::is_uuid(r.0.device_id->Some_0@) && r.0.bind@
                    == DEFAULT_BIND@ && r.0.name@ == DEFAULT_NAME@ && r.0.discovery.is_default()
                    && r.0.clipboard.is_default() && r.0.limits == default_limits()
                    && r.0.security.is_default() && r.0.endpoints@.len() == 0,
                Some(c) => {
                    &&& r.1 == (c.device_id is None)
                    &&& r.0 == (Config { device_id: r.0.device_id, ..c })
                    &&& c.device_id is Some ==> r.0.device_id == c.device_id
                    &&& c.device_id is None ==> entropy::is_uuid(r.0.device_id->Some_0@)
                },
            },
    {
        let (cfg, fresh) = match loaded {
            Some(c) => (c, false),
            None => (Config::default(), true),
        };
        if cfg.device_id.is_none() {
            (Config { device_id: Some(DeviceId::new()), ..cfg }, true)
        } else {
            (cfg, fresh)
        }
    }
}

/// Whether one of the servers has that name.
pub open spec fn is_named(l: Seq<EndpointConfig>, name: Seq<char>) -> bool {
    exists|i: int| 0 <= i < l.len() && (#[trigger] l[i]).name@ == name
}

/// The servers that do not have that name, in order.
pub open spec fn without(l: Seq<EndpointConfig>, name: Seq<char>) -> Seq<EndpointConfig>
    decreases l.len(),
{
    if l.len() == 0 {
        l
    } else if l.last().name@ == name {
        without(l.drop_last(), name)
    } else {
        without(l.drop_last(), name).push(l.last())
    }
}

/// What keeps a server from being added, if anything: its own flaw, or its name.
pub open spec fn refusal(l: Seq<EndpointConfig>, e: EndpointConfig) -> Option<Seq<char>> {
    if e.flaw() is Some {
        e.flaw()
    } else if is_named(l, e.name@) {
        Some("endpoint já existe: "@ + e.name@)
    } else {
        None
    }
}

proof fn lemma_without_absent(l: Seq<EndpointConfig>, name: Seq<char>)
    requires
        !is_named(l, name),
    ensures
        without(l, name) == l,
    decreases l.len(),
{
    if l.len() > 0 {
        let front = l.drop_last();
        assert forall|i: int| 0 <= i < front.len() implies (#[trigger] front[i]).name@ != name by {
            assert(front[i] == l[i]);
        }
        lemma_without_absent(front, name);
        assert(l.last() == l[l.len() - 1]);
        assert(front.push(l.last()) =~= l);
    }
}

/// A server that was added and is removed again leaves the others as they were.
pub proof fn law_removal_undoes_addition(l: Seq<EndpointConfig>, e: EndpointConfig)
    requires
        refusal(l, e) is None,
    ensures
        without(l.push(e), e.name@) == l,
{
    assert(l.push(e).drop_last() =~= l);
    lemma_without_absent(l, e.name@);
}

impl Config {
    /// The first server of that name.
    pub fn endpoint(&self, name: &str) -> (r: Option<&EndpointConfig>)
        ensures
            match r {
                Some(e) => exists|i: int|
                    0 <= i < self.endpoints@.len() && *e == #[trigger] self.endpoints@[i]
                        && e.name@ == name@ && !is_named(self.endpoints@.take(i), name@),
                None => !is_named(self.endpoints@, name@),
            },
    {
        let mut i: usize = 0;
        while i < self.endpoints.len()
            invariant
                i <= self.endpoints@.len(),
                forall|k: int|
                    0 <= k < i ==> (#[trigger] self.endpoints@[k]).name@ != name@,
            decreases self.endpoints@.len() - i,
        {
            if text::same(self.endpoints[i].name.as_str(), name) {
                return Some(&self.endpoints[i]);
            }
            i = i + 1;
        }
        None
    }

    /// Adds a server that can be connected to and whose name is not taken.
    pub fn add_endpoint(&mut self, e: EndpointConfig) -> (r: Result<(), Error>)
        ensures
            match refusal(old(self).endpoints@, e) {
                Some(reason) => r matches Err(error) && error@ == ErrorView::Config(reason)
                    && *final(self) == *old(self),
                None => r is Ok && final(self).endpoints@ == old(self).endpoints@.push(e)
                    && *final(self) == (Config {
                    endpoints: final(self).endpoints,
                    ..*old(self)
                }),
            },
    {
        match e.validate() {
            Err(error) => {
                return Err(error);
            },
            Ok(()) => {},
        }
        if self.endpoint(e.name.as_str()).is_some() {
            return Err(Error::Config(text::join("endpoint já existe: ", e.name.as_str())));
        }
        self.endpoints.push(e);
        Ok(())
    }

    /// Removes the servers of that name; whether there was one.
    pub fn remove_endpoint(&mut self, name: &str) -> (r: bool)
        ensures
            r == is_named(old(self).endpoints@, name@),
            final(self).endpoints@ == without(old(self).endpoints@, name@),
            *final(self) == (Config { endpoints: final(self).endpoints, ..*old(self) }),
    {
        let found = self.endpoint(name).is_some();
        let mut kept: Vec<EndpointConfig> = Vec::new();
        let mut i: usize = 0;
        while i < self.endpoints.len()
            invariant
                i <= self.endpoints@.len(),
                kept@ == without(self.endpoints@.take(i as int), name@),
                *self == *old(self),
            decreases self.endpoints@.len() - i,
        {
            assert(self.endpoints@.take(i + 1).drop_last() =~= self.endpoints@.take(i as int));
            if !text::same(self.endpoints[i].name.as_str(), name) {
                kept.push(self.endpoints[i].clone());
            }
            i = i + 1;
        }
        assert(self.endpoints@.take(i as int) =~= self.endpoints@);
        self.endpoints = kept;
        found
    }
}

/// The environment overrides what it names and nothing else: each variable that is set is
/// what its setting then is, read as text, as `true` or `false`, as `tls` or
/// `plaintext_legacy`, or as a number. One that cannot be read is an error; with none set,
/// the settings stay as they are.
pub proof fn law_environment(
    cfg: Config,
    env: &EnvOverrides,
    r: Result<Config, Error>,
    a: usize,
    b: u32,
    c: u64,
)
    requires
        call_ensures(apply_env, (cfg, env), r),
    ensures
        r is Ok && env.bind is Some ==> env.bind->Some_0 is Text && r->Ok_0.bind@
            == env.bind->Some_0->Text_0@,
        r is Ok && env.bind is None ==> r->Ok_0.bind@ == cfg.bind@,
        r is Ok && env.name is Some ==> env.name->Some_0 is Text && r->Ok_0.name@
            == env.name->Some_0->Text_0@,
        r is Ok && env.name is None ==> r->Ok_0.name@ == cfg.name@,
        r is Ok && env.enable_mdns is Some ==> env.enable_mdns->Some_0 is Text && (
        env.enable_mdns->Some_0->Text_0@ == "true"@ && r->Ok_0.discovery.enable_mdns
            || env.enable_mdns->Some_0->Text_0@ == "false"@ && !r->Ok_0.discovery.enable_mdns),
        r is Ok && env.enable_mdns is None ==> r->Ok_0.discovery.enable_mdns == cfg.discovery.enable_mdns,
        r is Ok && env.local_only is Some ==> env.local_only->Some_0 is Text && (
        env.local_only->Some_0->Text_0@ == "true"@ && r->Ok_0.security.local_only
            || env.local_only->Some_0->Text_0@ == "false"@ && !r->Ok_0.security.local_only),
        r is Ok && env.local_only is None ==> r->Ok_0.security.local_only == cfg.security.local_only,
        r is Ok && env.transport is Some ==> env.transport->Some_0 is Text && (
        env.transport->Some_0->Text_0@ == "tls"@ && r->Ok_0.security.transport == Transport::Tls
            || env.transport->Some_0->Text_0@ == "plaintext_legacy"@
            && r->Ok_0.security.transport == Transport::PlaintextLegacy),
        r is Ok && env.transport is None ==> r->Ok_0.security.transport == cfg.security.transport,
        r is Ok && env.max_connections is None ==> r->Ok_0.limits.max_connections == cfg.limits.max_connections,
        r is Ok && env.max_connections is Some ==> env.max_connections->Some_0 is Text,
        r is Ok && env.max_connections is Some && env.max_connections->Some_0->Text_0@ == text::decimal_of(a as nat)
            ==> r->Ok_0.limits.max_connections == a,
        r is Ok && env.messages_per_minute is None ==> r->Ok_0.limits.messages_per_minute == cfg.limits.messages_per_minute,
        r is Ok && env.messages_per_minute is Some ==> env.messages_per_minute->Some_0 is Text,
        r is Ok && env.messages_per_minute is Some && env.messages_per_minute->Some_0->Text_0@ == text::decimal_of(b as nat)
            ==> r->Ok_0.limits.messages_per_minute == b,
        r is Ok && env.bytes_per_minute is None ==> r->Ok_0.limits.bytes_per_minute == cfg.limits.bytes_per_minute,
        r is Ok && env.bytes_per_minute is Some ==> env.bytes_per_minute->Some_0 is Text,
        r is Ok && env.bytes_per_minute is Some && env.bytes_per_minute->Some_0->Text_0@ == text::decimal_of(c as nat)
            ==> r->Ok_0.limits.bytes_per_minute == c,
        r is Ok ==> r->Ok_0.device_id == cfg.device_id && r->Ok_0.clipboard == cfg.clipboard
            && r->Ok_0.endpoints == cfg.endpoints && r->Ok_0.discovery.service_type
            == cfg.discovery.service_type && r->Ok_0.security.pairing_timeout_secs
            == cfg.security.pairing_timeout_secs && r->Ok_0.security.tls_cert_path
            == cfg.security.tls_cert_path && r->Ok_0.security.tls_key_path
            == cfg.security.tls_key_path && r->Ok_0.security.tls_fingerprint
            == cfg.security.tls_fingerprint && r->Ok_0.security.outbound_route
            == cfg.security.outbound_route,
        env.bind is None && env.name is None && env.enable_mdns is None && env.transport is None
            && env.local_only is None && env.max_connections is None
            && env.messages_per_minute is None && env.bytes_per_minute is None ==> r is Ok,
        r is Err ==> r->Err_0 is Config,
{
    text::lemma_decimal_parses(a as nat, usize::MAX as nat);
    text::lemma_decimal_parses(b as nat, u32::MAX as nat);
    text::lemma_decimal_parses(c as nat, u64::MAX as nat);
    reveal_strlit("true");
    reveal_strlit("false");
    reveal_strlit("tls");
    reveal_strlit("plaintext_legacy");
    if r is Err {
        assert(r->Err_0@ is Config);
    }
}

/// Settings that were loaded stay as they are, but for an identifier where they had none;
/// they are saved where one was made or where there was no file.
pub proof fn law_first_load(loaded: Option<Config>, r: (Config, bool))
    requires
        call_ensures(Config::settle, (loaded,), r),
    ensures
        r.0.device_id is Some,
        loaded is None ==> r.1,
        loaded is Some ==> {
            let c = loaded->Some_0;
            &&& r.1 <==> c.device_id is None
            &&& c.device_id is Some ==> r.0.device_id == c.device_id
            &&& r.0.bind == c.bind && r.0.name == c.name && r.0.discovery == c.discovery
                && r.0.clipboard == c.clipboard && r.0.limits == c.limits && r.0.security
                == c.security && r.0.endpoints == c.endpoints
        },
        loaded is None ==> r.0.bind@ == "0.0.0.0:8765"@ && r.0.name@ == "linux-desktop"@
            && r.0.security.transport == Transport::Tls && r.0.security.local_only
            && r.0.security.pairing_timeout_secs == 120 && r.0.clipboard.sync_text
            && r.0.clipboard.sync_images && !r.0.clipboard.sync_html && !r.0.clipboard.sync_files
            && r.0.clipboard.max_image_bytes == 25 * 1024 * 1024 && r.0.clipboard.max_text_bytes
            == 16 * 1024 * 1024 && r.0.limits.max_connections == 256
            && r.0.limits.messages_per_minute == 120 && r.0.limits.bytes_per_minute == 64 * 1024
            * 1024 && r.0.discovery.enable_mdns && r.0.endpoints@.len() == 0,
{
}

/// The largest message has room for the largest text, six bytes for each of its own, and for
/// the largest image in base64, each with 8 KiB beside it, and for no more than one of them;
/// memory is the only other bound.
pub proof fn law_message_limit(cfg: &ClipboardConfig, r: usize)
    requires
        call_ensures(ClipboardConfig::max_websocket_message_bytes, (cfg,), r),
    ensures
        r < usize::MAX ==> r >= 6 * cfg.max_text_bytes + 8 * 1024 && r >= (cfg.max_image_bytes + 2)
            / 3 * 4 + 8 * 1024,
        r < usize::MAX ==> r == 6 * cfg.max_text_bytes + 8 * 1024 || r == (cfg.max_image_bytes + 2)
            / 3 * 4 + 8 * 1024,
        r == usize::MAX ==> 6 * cfg.max_text_bytes + 8 * 1024 >= usize::MAX || (cfg.max_image_bytes
            + 2) / 3 * 4 + 8 * 1024 >= usize::MAX,
{
}

/// A server can be connected to where its URL's scheme is that of its transport, TLS has a
/// pin, and a relay has TLS and a credential.
pub proof fn law_valid_endpoints(e: &EndpointConfig, r: Result<(), Error>, rest: Seq<char>)
    requires
        call_ensures(EndpointConfig::validate, (e,), r),
    ensures
        e.transport == Transport::Tls && e.url@ == "wss://"@ + rest && e.tls_fingerprint is Some && (
        e.scope == EndpointScope::Relay ==> e.credential_ref is Some) ==> r is Ok,
        e.transport == Transport::PlaintextLegacy && e.url@ == "ws://"@ + rest && e.scope
            == EndpointScope::Lan ==> r is Ok,
        e.scope == EndpointScope::Relay && (e.transport != Transport::Tls
            || e.credential_ref is None) ==> r is Err,
        e.transport == Transport::Tls && e.tls_fingerprint is None ==> r is Err,
        e.transport == Transport::Tls && e.url@ == "ws://"@ + rest ==> r is Err,
        e.transport == Transport::PlaintextLegacy && e.url@ == "wss://"@ + rest ==> r is Err,
        r is Err ==> r->Err_0 is Config,
{
    reveal_strlit("wss://");
    reveal_strlit("ws://");
    assert(("wss://"@ + rest).take(6) =~= "wss://"@);
    assert(("ws://"@ + rest).take(5) =~= "ws://"@);
    assert(("wss://"@ + rest)[2] == 's');
    assert(("ws://"@ + rest)[2] == ':');
    if e.transport == Transport::PlaintextLegacy && e.url@ == "wss://"@ + rest {
        assert(e.url@.take(5)[2] == 's');
    }
    if e.transport == Transport::Tls && e.url@ == "ws://"@ + rest && e.url@.len() >= 6 {
        assert(e.url@.take(6)[2] == ':');
    }
    if r is Err {
        assert(r->Err_0@ is Config);
    }
}

proof fn lemma_without_filters(
    l: Seq<EndpointConfig>,
    name: Seq<char>,
    p: spec_fn(EndpointConfig) -> bool,
)
    requires
        forall|e: EndpointConfig| #[trigger] p(e) == (e.name@ != name),
    ensures
        without(l, name) == l.filter(p),
    decreases l.len(),
{
    reveal(Seq::filter);
    if l.len() > 0 {
        lemma_without_filters(l.drop_last(), name, p);
    }
}

/// A server that is added stands after the others, where it can be connected to and its name
/// is free; one that is removed leaves every other in its place. The other settings never
/// change by it.
pub proof fn law_endpoints(
    a: &mut Config,
    e: EndpointConfig,
    added: Result<(), Error>,
    valid: Result<(), Error>,
    b: &mut Config,
    name: &str,
    removed: bool,
    found: Option<&EndpointConfig>,
)
    requires
        call_ensures(Config::add_endpoint, (a, e), added),
        call_ensures(EndpointConfig::validate, (&e,), valid),
        call_ensures(Config::remove_endpoint, (b, name), removed),
        call_ensures(Config::endpoint, (b, name), found),
    ensures
        added is Ok <==> valid is Ok && forall|i: int|
            0 <= i < old(a).endpoints@.len() ==> (#[trigger] old(a).endpoints@[i]).name@ != e.name@,
        added is Ok ==> final(a).endpoints@ == old(a).endpoints@.push(e),
        added is Err ==> *final(a) == *old(a),
        final(b).endpoints@ == old(b).endpoints@.filter(|e: EndpointConfig| e.name@ != name@),
        removed <==> exists|i: int|
            0 <= i < old(b).endpoints@.len() && (#[trigger] old(b).endpoints@[i]).name@ == name@,
        found is Some <==> removed,
        found is Some ==> found->Some_0.name@ == name@ && old(b).endpoints@.contains(
            *found->Some_0,
        ),
        final(a).bind == old(a).bind && final(a).name == old(a).name && final(a).security
            == old(a).security && final(a).clipboard == old(a).clipboard && final(a).limits
            == old(a).limits && final(a).device_id == old(a).device_id,
        final(b).bind == old(b).bind && final(b).name == old(b).name && final(b).security
            == old(b).security && final(b).clipboard == old(b).clipboard && final(b).limits
            == old(b).limits && final(b).device_id == old(b).device_id,
{
    let p = |e: EndpointConfig| e.name@ != name@;
    lemma_without_filters(old(b).endpoints@, name@, p);
    if is_named(old(a).endpoints@, e.name@) {
        let i = choose|i: int|
            0 <= i < old(a).endpoints@.len() && (#[trigger] old(a).endpoints@[i]).name@ == e.name@;
        assert(old(a).endpoints@[i].name@ == e.name@);
    }
}

/// Whether a variable is unset, or one of two words.
pub open spec fn unset_or_word(v: Option<EnvValue>, a: Seq<char>, b: Seq<char>) -> bool {
    v is None || (v->Some_0 is Text && (v->Some_0->Text_0@ == a || v->Some_0->Text_0@ == b))
}

/// Whether a variable is unset, or the number `n`.
pub open spec fn unset_or_number(v: Option<EnvValue>, n: nat) -> bool {
    v is None || (v->Some_0 is Text && v->Some_0->Text_0@ == text::decimal_of(n))
}

/// An environment whose variables are unset or well written is taken.
pub proof fn law_good_environment(
    cfg: Config,
    env: &EnvOverrides,
    r: Result<Config, Error>,
    a: usize,
    b: u32,
    c: u64,
)
    requires
        call_ensures(apply_env, (cfg, env), r),
    ensures
        (env.bind is Some ==> env.bind->Some_0 is Text) && (env.name is Some ==> env.name->Some_0
            is Text) && unset_or_word(env.enable_mdns, "true"@, "false"@) && unset_or_word(
            env.local_only,
            "true"@,
            "false"@,
        ) && unset_or_word(env.transport, "tls"@, "plaintext_legacy"@) && unset_or_number(
            env.max_connections,
            a as nat,
        ) && unset_or_number(env.messages_per_minute, b as nat) && unset_or_number(
            env.bytes_per_minute,
            c as nat,
        ) ==> r is Ok,
{
    text::lemma_decimal_parses(a as nat, usize::MAX as nat);
    text::lemma_decimal_parses(b as nat, u32::MAX as nat);
    text::lemma_decimal_parses(c as nat, u64::MAX as nat);
}

/// A variable that is unset leaves what was; one that is well written gives what it says; any
/// other is an error that names it.
pub proof fn law_variables(
    v: &Option<EnvValue>,
    name: &str,
    current: bool,
    flag: Result<bool, Error>,
    max: u64,
    was: u64,
    number: Result<u64, Error>,
    n: u64,
)
    requires
        call_ensures(parse_bool, (v, name, current), flag),
        call_ensures(parse_env, (v, name, max, was), number),
    ensures
        v is None ==> flag is Ok && flag->Ok_0 == current && number is Ok && number->Ok_0 == was,
        v is Some && v->Some_0 is NotUtf8 ==> flag is Err && number is Err,
        v is Some && v->Some_0 is Text ==> {
            let s = v->Some_0->Text_0@;
            &&& s == "true"@ ==> flag is Ok && flag->Ok_0
            &&& s == "false"@ ==> flag is Ok && !flag->Ok_0
            &&& s != "true"@ && s != "false"@ ==> flag is Err
            &&& s == text::decimal_of(n as nat) && n <= max ==> number is Ok && number->Ok_0 == n
            &&& s.len() == 0 ==> number is Err
            &&& number is Ok ==> number->Ok_0 <= max
        },
        flag is Err ==> flag->Err_0 is Config && text::has_prefix(flag->Err_0->Config_0@, name@),
        number is Err ==> number->Err_0 is Config && text::has_prefix(
            number->Err_0->Config_0@,
            name@,
        ),
{
    reveal_strlit("true");
    reveal_strlit("false");
    if n <= max {
        text::lemma_decimal_parses(n as nat, max as nat);
    }
    let a = name@ + " nao e UTF-8"@;
    let b = name@ + " tem valor invalido"@;
    assert(a.take(name@.len() as int) =~= name@);
    assert(b.take(name@.len() as int) =~= name@);
    if flag is Err {
        assert(flag->Err_0@ is Config);
    }
    if number is Err {
        assert(number->Err_0@ is Config);
    }
}

} // verus!
