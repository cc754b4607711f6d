//! The daemon's server: its settings at run time, who may connect, and how much a
//! source may send.

use std::collections::HashMap;

use vstd::prelude::*;

use crate::clock;
use crate::config::{
    ClipboardConfig, Config, LimitsConfig, SecurityConfig, DEFAULT_BIND, DEFAULT_NAME,
};
use crate::entropy;
use crate::protocol::DeviceId;
use crate::text;

verus! {

broadcast use vstd::std_specs::hash::group_hash_axioms;

/// The settings that the server runs with.
#[derive(Debug)]
pub struct ServerConfig {
    pub bind: String,
    pub name: String,
    pub clipboard: ClipboardConfig,
    pub security: SecurityConfig,
    pub limits: LimitsConfig,
    /// The daemon's own identifier.
    pub device_id: DeviceId,
}

impl Clone for ServerConfig {
    fn clone(&self) -> (r: Self)
        ensures
            r == *self,
    {
        ServerConfig {
            bind: self.bind.clone(),
            name: self.name.clone(),
            clipboard: self.clipboard.clone(),
            security: self.security.clone(),
            limits: self.limits,
            device_id: self.device_id.clone(),
        }
    }
}

/// The port where none can be read from the address.
pub const DEFAULT_PORT: u16 = 8765;

/// The port that a listening address names after its last colon.
pub open spec fn port_of(bind: Seq<char>) -> u16 {
    match text::parsed(text::after_last_of(bind, ':'), u16::MAX as nat) {
        Some(n) => n as u16,
        None => DEFAULT_PORT,
    }
}

impl ServerConfig {
    /// The part of the settings that the server runs with. Where they hold no
    /// identifier, a random one is taken.
    pub fn from_config(cfg: &Config) -> (r: Self)
        ensures
            r.bind == cfg.bind,
            r.name == cfg.name,
            r.clipboard == cfg.clipboard,
            r.security == cfg.security,
            r.limits == cfg.limits,
            match cfg.device_id {
                Some(id) => r.device_id == id,
                None => entropy::is_uuid(r.device_id@),
            },
    {
        ServerConfig {
            bind: cfg.bind.clone(),
            name: cfg.name.clone(),
            clipboard: cfg.clipboard.clone(),
            security: cfg.security.clone(),
            limits: cfg.limits,
            device_id: match &cfg.device_id {
                Some(id) => id.clone(),
                None => DeviceId::new(),
            },
        }
    }

    /// The port that the server listens on.
    pub fn port(&self) -> (r: u16)
        ensures
            r == port_of(self.bind@),
    {
        let p = text::after_last(self.bind.as_str(), ':');
        match text::parse_number(p.as_str(), u16::MAX as u64) {
            Some(n) => n as u16,
            None => DEFAULT_PORT,
        }
    }
}

impl Default for ServerConfig {
    fn default() -> (r: Self)
        ensures
            r.bind@ == DEFAULT_BIND@,
            r.name@ == DEFAULT_NAME@,
            r.clipboard.is_default(),
            r.security.is_default(),
            r.limits == crate::config::default_limits(),
            entropy::is_uuid(r.device_id@),
    {
        ServerConfig {
            bind: DEFAULT_BIND.to_owned(),
            name: DEFAULT_NAME.to_owned(),
            clipboard: ClipboardConfig::default(),
            security: SecurityConfig::default(),
            limits: LimitsConfig::default(),
            device_id: DeviceId::new(),
        }
    }
}

/// An address of a machine, as the number that its bytes make, the highest first.
#[derive(Debug, Clone, Copy, PartialEq, Eq, Hash, Structural)]
pub enum IpAddress {
    V4(u32),
    V6(u128),
}

/// An address and a port.
#[derive(Debug, Clone, Copy, PartialEq, Eq, Hash, Structural)]
pub struct SocketAddress {
    pub ip: IpAddress,
    pub port: u16,
}

/// Whether an address is local: loopback, private or link-local.
pub open spec fn is_local(ip: IpAddress) -> bool {
    match ip {
        IpAddress::V4(n) => {
            // 127.0.0.0/8, 10.0.0.0/8, 172.16.0.0/12, 192.168.0.0/16 and 169.254.0.0/16
            ||| 0x7f00_0000 <= n <= 0x7fff_ffff
            ||| 0x0a00_0000 <= n <= 0x0aff_ffff
            ||| 0xac10_0000 <= n <= 0xac1f_ffff
            ||| 0xc0a8_0000 <= n <= 0xc0a8_ffff
            ||| 0xa9fe_0000 <= n <= 0xa9fe_ffff
        },
        IpAddress::V6(n) => {
            // ::1, fe80::/10 and fc00::/7
            ||| n == 1
            ||| 0xfe80_0000_0000_0000_0000_0000_0000_0000 <= n
                <= 0xfebf_ffff_ffff_ffff_ffff_ffff_ffff_ffff
            ||| 0xfc00_0000_0000_0000_0000_0000_0000_0000 <= n
                <= 0xfdff_ffff_ffff_ffff_ffff_ffff_ffff_ffff
        },
    }
}

/// Whether an address is local. That says nothing of its being on the same network.
pub fn is_local_address(ip: IpAddress) -> (r: bool)
    ensures
        r == is_local(ip),
{
    match ip {
        IpAddress::V4(n) => {
            let first: u32 = n / 16_777_216;
            let second: u32 = n / 65_536 % 256;
            first == 127 || first == 10 || (first == 172 && 16 <= second && second <= 31) || (first
                == 192 && second == 168) || (first == 169 && second == 254)
        },
        IpAddress::V6(n) => {
            let head: u128 = n / 0x1_0000_0000_0000_0000_0000_0000_0000;
            proof {
                lemma_head(n);
            }
            n == 1 || (0xfe80 <= head && head <= 0xfebf) || (0xfc00 <= head && head <= 0xfdff)
        },
    }
}

proof fn lemma_head(n: u128)
    ensures
        ({
            let head = n / 0x1_0000_0000_0000_0000_0000_0000_0000;
            &&& (0xfe80 <= head <= 0xfebf) == (0xfe80_0000_0000_0000_0000_0000_0000_0000 <= n
                <= 0xfebf_ffff_ffff_ffff_ffff_ffff_ffff_ffff)
            &&& (0xfc00 <= head <= 0xfdff) == (0xfc00_0000_0000_0000_0000_0000_0000_0000 <= n
                <= 0xfdff_ffff_ffff_ffff_ffff_ffff_ffff_ffff)
        }),
{
}

/// What an address has sent in the minute since `started`, a time of the steady clock.
#[derive(Debug, Clone, Copy, PartialEq, Eq, Structural)]
pub struct Window {
    pub started: u128,
    pub messages: u32,
    pub bytes: u64,
}

/// How many connections are open, and what each address has sent lately.
pub struct Admission {
    active: usize,
    windows4: HashMap<u32, Window>,
    windows6: HashMap<u128, Window>,
    limits: LimitsConfig,
    started: std::time::Instant,
}

/// The contents of an `Admission`.
pub struct AdmissionView {
    pub active: usize,
    pub windows: Map<IpAddress, Window>,
    pub limits: LimitsConfig,
}

impl View for Admission {
    type V = AdmissionView;

    closed spec fn view(&self) -> AdmissionView {
        AdmissionView {
            active: self.active,
            windows: Map::new(
                |ip: IpAddress|
                    match ip {
                        IpAddress::V4(n) => self.windows4@.contains_key(n),
                        IpAddress::V6(n) => self.windows6@.contains_key(n),
                    },
                |ip: IpAddress|
                    match ip {
                        IpAddress::V4(n) => self.windows4@[n],
                        IpAddress::V6(n) => self.windows6@[n],
                    },
            ),
            limits: self.limits,
        }
    }
}

/// How long a window lasts: a minute, in nanoseconds.
pub const WINDOW_NANOS: u128 = 60_000_000_000;

/// The window that counts at `now`: the one there was, unless its minute is over.
pub open spec fn window_at(w: Option<Window>, now: u128) -> Window {
    match w {
        Some(w) if now - w.started < WINDOW_NANOS => w,
        _ => Window { started: now, messages: 0, bytes: 0 },
    }
}

/// `a + b`, or the largest value where that is too large.
pub open spec fn sum64(a: u64, b: int) -> u64 {
    if a + b > u64::MAX {
        u64::MAX
    } else {
        (a + b) as u64
    }
}

/// Whether a message of `bytes` bytes stays within the limits of its window.
pub open spec fn within(limits: LimitsConfig, w: Window, bytes: int) -> bool {
    &&& limits.messages_per_minute == 0 || w.messages < limits.messages_per_minute
    &&& limits.bytes_per_minute == 0 || sum64(w.bytes, bytes) <= limits.bytes_per_minute
}

/// The window once a message of `bytes` bytes was let in.
pub open spec fn counted(w: Window, bytes: int) -> Window {
    Window {
        messages: if w.messages == u32::MAX {
            u32::MAX
        } else {
            (w.messages + 1) as u32
        },
        bytes: sum64(w.bytes, bytes),
        ..w
    }
}

impl AdmissionView {
    /// The window of an address, if it has one.
    pub open spec fn window(self, ip: IpAddress) -> Option<Window> {
        if self.windows.contains_key(ip) {
            Some(self.windows[ip])
        } else {
            None
        }
    }

    /// Whether nothing limits messages.
    pub open spec fn unlimited(self) -> bool {
        self.limits.messages_per_minute == 0 && self.limits.bytes_per_minute == 0
    }

    /// Whether a message of `bytes` bytes from `ip` is let in at `now`.
    pub open spec fn allows(self, ip: IpAddress, bytes: int, now: u128) -> bool {
        self.unlimited() || within(self.limits, window_at(self.window(ip), now), bytes)
    }

    /// What is counted once a message of `bytes` bytes from `ip` was judged at `now`.
    pub open spec fn after_message(self, ip: IpAddress, bytes: int, now: u128) -> AdmissionView {
        if self.unlimited() {
            self
        } else {
            let w = window_at(self.window(ip), now);
            AdmissionView {
                windows: self.windows.insert(
                    ip,
                    if within(self.limits, w, bytes) {
                        counted(w, bytes)
                    } else {
                        w
                    },
                ),
                ..self
            }
        }
    }

    /// Whether one more connection may be opened.
    pub open spec fn has_room(self) -> bool {
        self.limits.max_connections == 0 || self.active < self.limits.max_connections
    }

    /// No more connections than allowed, and no window over its limits.
    pub open spec fn holds_limits(self) -> bool {
        &&& self.limits.max_connections != 0 ==> self.active <= self.limits.max_connections
        &&& forall|ip: IpAddress| #[trigger]
            self.windows.contains_key(ip) ==> {
                let w = self.windows[ip];
                &&& self.limits.messages_per_minute != 0 ==> w.messages
                    <= self.limits.messages_per_minute
                &&& self.limits.bytes_per_minute != 0 ==> w.bytes <= self.limits.bytes_per_minute
            }
    }
}

impl Admission {
    /// No connection, and nothing counted.
    pub fn new(limits: LimitsConfig) -> (r: Self)
        ensures
            r@ == (AdmissionView { active: 0, windows: Map::empty(), limits }),
            r@.holds_limits(),
    {
        let r = Admission {
            active: 0,
            windows4: HashMap::new(),
            windows6: HashMap::new(),
            limits,
            started: clock::start_clock(),
        };
        assert(r@.windows =~= Map::<IpAddress, Window>::empty());
        r
    }

    pub fn active(&self) -> (r: usize)
        ensures
            r == self@.active,
    {
        self.active
    }

    /// Opens a connection where there is room for it.
    pub fn try_connection(&mut self) -> (r: bool)
        requires
            old(self)@.active < usize::MAX,
            old(self)@.holds_limits(),
        ensures
            r == old(self)@.has_room(),
            final(self)@ == (AdmissionView {
                active: if r {
                    (old(self)@.active + 1) as usize
                } else {
                    old(self)@.active
                },
                ..old(self)@
            }),
            final(self)@.holds_limits(),
    {
        let ghost before = self@;
        let n: usize = self.active + 1;
        if self.limits.max_connections != 0 && n > self.limits.max_connections {
            false
        } else {
            self.active = n;
            assert(self@.windows =~= before.windows);
            true
        }
    }

    /// Closes a connection.
    pub fn release_connection(&mut self)
        requires
            old(self)@.active > 0,
            old(self)@.holds_limits(),
        ensures
            final(self)@ == (AdmissionView { active: (old(self)@.active - 1) as usize, ..old(self)@ }),
            final(self)@.holds_limits(),
    {
        let ghost before = self@;
        self.active = self.active - 1;
        assert(self@.windows =~= before.windows);
    }

    /// Whether a message of `bytes` bytes from `ip` is let in now. What is let in is
    /// counted; what is not, is not.
    pub fn allow_message(&mut self, ip: IpAddress, bytes: usize) -> (r: bool)
        requires
            old(self)@.holds_limits(),
        ensures
            exists|now: u128|
                #![trigger old(self)@.allows(ip, bytes as int, now)]
                r == old(self)@.allows(ip, bytes as int, now) && final(self)@
                    == old(self)@.after_message(ip, bytes as int, now),
            final(self)@.holds_limits(),
    {
        let now: u128 = clock::nanos_since(&self.started);
        let ghost before = self@;
        let r = self.allow_message_at(ip, bytes, now);
        assert(r == before.allows(ip, bytes as int, now));
        r
    }

    /// Whether a message of `bytes` bytes from `ip` is let in at `now`.
    pub fn allow_message_at(&mut self, ip: IpAddress, bytes: usize, now: u128) -> (r: bool)
        requires
            old(self)@.holds_limits(),
        ensures
            r == old(self)@.allows(ip, bytes as int, now),
            final(self)@ == old(self)@.after_message(ip, bytes as int, now),
            final(self)@.holds_limits(),
    {
        if self.limits.messages_per_minute == 0 && self.limits.bytes_per_minute == 0 {
            return true;
        }
        let ghost before = self@;
        let current: Option<Window> = match ip {
            IpAddress::V4(n) => match self.windows4.get(&n) {
                Some(w) => Some(*w),
                None => None,
            },
            IpAddress::V6(n) => match self.windows6.get(&n) {
                Some(w) => Some(*w),
                None => None,
            },
        };
        assert(current == before.window(ip));
        let w: Window = match current {
            Some(w) => {
                if now >= w.started && now - w.started >= WINDOW_NANOS {
                    Window { started: now, messages: 0, bytes: 0 }
                } else {
                    w
                }
            },
            None => Window { started: now, messages: 0, bytes: 0 },
        };
        let allowed = (self.limits.messages_per_minute == 0 || w.messages
            < self.limits.messages_per_minute) && (self.limits.bytes_per_minute == 0
            || w.bytes.saturating_add(bytes as u64) <= self.limits.bytes_per_minute);
        let next: Window = if allowed {
            Window {
                started: w.started,
                messages: w.messages.saturating_add(1),
                bytes: w.bytes.saturating_add(bytes as u64),
            }
        } else {
            w
        };
        match ip {
            IpAddress::V4(n) => {
                self.windows4.insert(n, next);
            },
            IpAddress::V6(n) => {
                self.windows6.insert(n, next);
            },
        }
        assert(self@.windows =~= before.windows.insert(ip, next));
        allowed
    }
}

/// What the answer to a request for a connection is.
#[derive(Debug, Clone, Copy, PartialEq, Eq, Structural)]
pub enum Entry {
    /// Come in.
    Open,
    /// Too many connections are open.
    Full,
    /// The address is not local.
    Remote,
}

/// The answer to a request for a connection from `ip`.
pub open spec fn entry_of(a: AdmissionView, security: SecurityConfig, ip: IpAddress) -> Entry {
    if !a.has_room() {
        Entry::Full
    } else if security.local_only && !is_local(ip) {
        Entry::Remote
    } else {
        Entry::Open
    }
}

/// Answers a request for a connection from `ip`. Only one that is let in counts as open.
pub fn answer_request(admission: &mut Admission, security: &SecurityConfig, ip: IpAddress) -> (r: Entry)
    requires
        old(admission)@.active < usize::MAX,
        old(admission)@.holds_limits(),
    ensures
        r == entry_of(old(admission)@, *security, ip),
        final(admission)@ == (AdmissionView {
            active: if r == Entry::Open {
                (old(admission)@.active + 1) as usize
            } else {
                old(admission)@.active
            },
            ..old(admission)@
        }),
        final(admission)@.holds_limits(),
{
    if !admission.try_connection() {
        return Entry::Full;
    }
    if security.local_only && !is_local_address(ip) {
        admission.release_connection();
        return Entry::Remote;
    }
    Entry::Open
}

/// The status and the body of an answer over HTTP.
pub fn ready_answer(shutting_down: bool) -> (r: (u16, &'static str))
    ensures
        r.0 == if shutting_down {
            503u16
        } else {
            200u16
        },
        r.1@ == if shutting_down {
            "clipsync daemon not ready\n"@
        } else {
            "clipsync daemon ready\n"@
        },
{
    if shutting_down {
        (503, "clipsync daemon not ready\n")
    } else {
        (200, "clipsync daemon ready\n")
    }
}

/// The status and the body of the answer to a request for a connection that is refused.
pub fn refusal_answer(entry: Entry) -> (r: Option<(u16, &'static str)>)
    ensures
        match entry {
            Entry::Open => r is None,
            Entry::Full => r matches Some(a) && a.0 == 503 && a.1@ == "connection quota exceeded\n"@,
            Entry::Remote => r matches Some(a) && a.0 == 403 && a.1@ == "conexão remota bloqueada\n"@,
        },
{
    match entry {
        Entry::Open => None,
        Entry::Full => Some((503, "connection quota exceeded\n")),
        Entry::Remote => Some((403, "conexão remota bloqueada\n")),
    }
}

/// What is counted after `messages` came from `ip`, each a size and a time.
pub open spec fn after_messages(
    a: AdmissionView,
    ip: IpAddress,
    messages: Seq<(int, u128)>,
) -> AdmissionView
    decreases messages.len(),
{
    if messages.len() == 0 {
        a
    } else {
        after_messages(a, ip, messages.drop_last()).after_message(
            ip,
            messages.last().0,
            messages.last().1,
        )
    }
}

/// How many of `messages` from `ip` were let in.
pub open spec fn let_in(a: AdmissionView, ip: IpAddress, messages: Seq<(int, u128)>) -> nat
    decreases messages.len(),
{
    if messages.len() == 0 {
        0
    } else {
        let_in(a, ip, messages.drop_last()) + if after_messages(a, ip, messages.drop_last()).allows(
            ip,
            messages.last().0,
            messages.last().1,
        ) {
            1nat
        } else {
            0
        }
    }
}

/// However many messages an address sends within a minute of its first, no more are let
/// in than the limit says.
pub proof fn law_rate_limit(
    a: AdmissionView,
    ip: IpAddress,
    start: u128,
    messages: Seq<(int, u128)>,
)
    requires
        a.limits.messages_per_minute != 0,
        !a.windows.contains_key(ip),
        messages.len() > 0 ==> messages[0].1 == start,
        forall|i: int|
            0 <= i < messages.len() ==> start <= (#[trigger] messages[i]).1 && messages[i].1 - start
                < WINDOW_NANOS,
    ensures
        let_in(a, ip, messages) <= a.limits.messages_per_minute,
{
    lemma_let_in(a, ip, start, messages);
}

proof fn lemma_let_in(
    a: AdmissionView,
    ip: IpAddress,
    start: u128,
    messages: Seq<(int, u128)>,
)
    requires
        a.limits.messages_per_minute != 0,
        !a.windows.contains_key(ip),
        messages.len() > 0 ==> messages[0].1 == start,
        forall|i: int|
            0 <= i < messages.len() ==> start <= (#[trigger] messages[i]).1 && messages[i].1 - start
                < WINDOW_NANOS,
    ensures
        ({
            let b = after_messages(a, ip, messages);
            &&& b.limits == a.limits
            &&& messages.len() == 0 ==> !b.windows.contains_key(ip)
            &&& messages.len() > 0 ==> b.windows.contains_key(ip) && b.windows[ip].started == start
            &&& let_in(a, ip, messages) <= a.limits.messages_per_minute
            &&& let_in(a, ip, messages) == if b.windows.contains_key(ip) {
                b.windows[ip].messages as nat
            } else {
                0
            }
        }),
    decreases messages.len(),
{
    if messages.len() > 0 {
        let m = messages.drop_last();
        assert forall|i: int| 0 <= i < m.len() implies start <= (#[trigger] m[i]).1 && m[i].1 - start
            < WINDOW_NANOS by {
            assert(messages[i].1 - start < WINDOW_NANOS);
        }
        assert(m.len() > 0 ==> m[0] == messages[0]);
        lemma_let_in(a, ip, start, m);
        assert(messages[messages.len() - 1].1 - start < WINDOW_NANOS);
    }
}

/// An address is local by its numbers: 127.x, 10.x, 172.16.x to 172.31.x, 192.168.x and
/// 169.254.x, and of the longer ones ::1 and those that begin with fe80 to febf or fc00 to
/// fdff.
pub proof fn law_local_addresses(
    a: u8,
    b: u8,
    c: u8,
    d: u8,
    n: u32,
    head: u16,
    rest: u128,
    m: u128,
    short: bool,
    long: bool,
)
    requires
        n == a * 16_777_216 + b * 65_536 + c * 256 + d,
        call_ensures(is_local_address, (IpAddress::V4(n),), short),
        rest < 0x1_0000_0000_0000_0000_0000_0000_0000,
        m == head * 0x1_0000_0000_0000_0000_0000_0000_0000 + rest,
        call_ensures(is_local_address, (IpAddress::V6(m),), long),
    ensures
        short <==> a == 127 || a == 10 || (a == 172 && 16 <= b <= 31) || (a == 192 && b == 168) || (
        a == 169 && b == 254),
        long <==> (head == 0 && rest == 1) || 0xfe80 <= head <= 0xfebf || 0xfc00 <= head <= 0xfdff,
{
}

/// A request for a connection is let in exactly where there is room and, where only local
/// addresses are, its address is local; only then it counts. The refusals have their
/// answers.
pub proof fn law_requests(
    a: &mut Admission,
    security: &SecurityConfig,
    ip: IpAddress,
    r: Entry,
    local: bool,
    answer: Option<(u16, &'static str)>,
)
    requires
        call_ensures(answer_request, (a, security, ip), r),
        call_ensures(is_local_address, (ip,), local),
        call_ensures(refusal_answer, (r,), answer),
        old(a)@.active < usize::MAX,
    ensures
        ({
            let max = old(a)@.limits.max_connections;
            let room = max == 0 || old(a)@.active < max;
            &&& r == Entry::Open <==> room && (security.local_only ==> local)
            &&& r == Entry::Full <==> !room
            &&& r == Entry::Remote <==> room && security.local_only && !local
        }),
        final(a)@.active == old(a)@.active + (if r == Entry::Open {
            1int
        } else {
            0
        }),
        final(a)@.windows == old(a)@.windows && final(a)@.limits == old(a)@.limits,
        answer is None <==> r == Entry::Open,
        r == Entry::Full ==> answer->Some_0.0 == 503,
        r == Entry::Remote ==> answer->Some_0.0 == 403,
{
}

/// A connection that is opened is one more, one that is closed one less, and there is room
/// while fewer are open than the limit; no limit is 0.
pub proof fn law_connections(
    a: &mut Admission,
    opened: bool,
    b: &mut Admission,
    closed: (),
)
    requires
        call_ensures(Admission::try_connection, (a,), opened),
        call_ensures(Admission::release_connection, (b,), closed),
        old(a)@.active < usize::MAX,
        old(b)@.active > 0,
    ensures
        opened <==> old(a)@.limits.max_connections == 0 || old(a)@.active
            < old(a)@.limits.max_connections,
        opened ==> final(a)@.active == old(a)@.active + 1,
        !opened ==> final(a)@.active == old(a)@.active,
        final(b)@.active == old(b)@.active - 1,
{
}

/// A message is let in where its address has not used up the minute that began with its
/// first: fewer messages than the limit and no more bytes, a limit of 0 being none. A new
/// minute starts from nothing. What is let in is counted; other addresses are untouched.
pub proof fn law_messages(
    a: &mut Admission,
    ip: IpAddress,
    bytes: usize,
    now: u128,
    r: bool,
    other: IpAddress,
)
    requires
        call_ensures(Admission::allow_message_at, (a, ip, bytes, now), r),
    ensures
        ({
            let l = old(a)@.limits;
            let fresh = !old(a)@.windows.contains_key(ip) || now - old(a)@.windows[ip].started
                >= 60_000_000_000;
            let sent: int = if fresh { 0 } else { old(a)@.windows[ip].messages as int };
            let size: int = if fresh { 0 } else { old(a)@.windows[ip].bytes as int };
            &&& l.messages_per_minute == 0 && l.bytes_per_minute == 0 ==> r && final(a)@ == old(a)@
            &&& size + bytes <= u64::MAX ==> (r <==> (l.messages_per_minute == 0 || sent
                < l.messages_per_minute) && (l.bytes_per_minute == 0 || size + bytes
                <= l.bytes_per_minute))
            &&& l.messages_per_minute != 0 || l.bytes_per_minute != 0 ==> {
                &&& final(a)@.windows.contains_key(ip)
                &&& r && sent < u32::MAX ==> final(a)@.windows[ip].messages == sent + 1
                &&& r && size + bytes <= u64::MAX ==> final(a)@.windows[ip].bytes == size + bytes
                &&& !r ==> final(a)@.windows[ip].messages == sent && final(a)@.windows[ip].bytes
                    == size
                &&& fresh ==> final(a)@.windows[ip].started == now
                &&& !fresh ==> final(a)@.windows[ip].started == old(a)@.windows[ip].started
            }
        }),
        final(a)@.active == old(a)@.active && final(a)@.limits == old(a)@.limits,
        other != ip ==> (final(a)@.windows.contains_key(other) <==> old(a)@.windows.contains_key(
            other,
        )) && (old(a)@.windows.contains_key(other) ==> final(a)@.windows[other]
            == old(a)@.windows[other]),
{
}

/// The server runs with its part of the settings, unchanged.
pub proof fn law_server_settings(cfg: &Config, r: ServerConfig)
    requires
        call_ensures(ServerConfig::from_config, (cfg,), r),
    ensures
        r.bind == cfg.bind && r.name == cfg.name && r.clipboard == cfg.clipboard && r.security
            == cfg.security && r.limits == cfg.limits,
        cfg.device_id is Some ==> r.device_id == cfg.device_id->Some_0,
{
}

/// The port is the number after the last colon of the address, where that is one.
pub proof fn law_port(config: &ServerConfig, host: Seq<char>, n: u16, r: u16)
    requires
        call_ensures(ServerConfig::port, (config,), r),
        config.bind@ == host + seq![':'] + text::decimal_of(n as nat),
    ensures
        r == n,
{
    text::lemma_decimal_digits(n as nat);
    text::lemma_after_last(host, text::decimal_of(n as nat), ':');
    text::lemma_decimal_parses(n as nat, u16::MAX as nat);
}

} // verus!
