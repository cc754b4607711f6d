//! The server's state: which peers are connected, and who hears of what.
//!
//! The queues that lead to the peers belong to the caller, under each peer's session.

use vstd::prelude::*;

use crate::clock;
use crate::pairing::{PairingManager, TrustedStore};
use crate::protocol::{DeviceId, Message, MessageView};
use crate::server::{Admission, ServerConfig, SocketAddress};
use crate::sort;
use crate::table;
use crate::table::Table;
use crate::text;

verus! {

/// How many messages a peer's queue holds.
pub const PEER_QUEUE: usize = 128;

/// After how many seconds without a sign of life a peer is dropped.
pub const PEER_IDLE_TIMEOUT: u64 = 60;

/// Seconds between pings while a peer is connected.
pub const PEER_PING_INTERVAL_ACTIVE: u64 = 30;

/// Seconds between pings while none is.
pub const PEER_PING_INTERVAL_IDLE: u64 = 120;

/// Seconds between pings with `peer_count` peers connected.
pub fn peer_ping_interval_for(peer_count: usize) -> (r: u64)
    ensures
        r == if peer_count == 0 {
            PEER_PING_INTERVAL_IDLE
        } else {
            PEER_PING_INTERVAL_ACTIVE
        },
{
    if peer_count == 0 {
        PEER_PING_INTERVAL_IDLE
    } else {
        PEER_PING_INTERVAL_ACTIVE
    }
}

/// Seconds between pings on a connection, which has a peer at its other end.
pub fn peer_ping_interval() -> (r: u64)
    ensures
        r == PEER_PING_INTERVAL_ACTIVE,
{
    peer_ping_interval_for(1)
}

/// After how many seconds without a sign of life a peer is dropped.
pub fn peer_idle_timeout() -> (r: u64)
    ensures
        r == PEER_IDLE_TIMEOUT,
{
    PEER_IDLE_TIMEOUT
}

/// How many messages a peer's queue holds.
pub fn peer_queue_size() -> (r: usize)
    ensures
        r == PEER_QUEUE,
{
    PEER_QUEUE
}

/// A connected peer.
#[derive(Debug)]
pub struct PeerHandle {
    pub addr: SocketAddress,
    pub device_id: DeviceId,
    pub name: String,
    /// Seconds since the Unix epoch.
    pub connected_at: i64,
    /// The connection, under which the peer's queue is found.
    pub session_id: String,
}

impl Clone for PeerHandle {
    fn clone(&self) -> (r: Self)
        ensures
            r == *self,
    {
        PeerHandle {
            addr: self.addr,
            device_id: self.device_id.clone(),
            name: self.name.clone(),
            connected_at: self.connected_at,
            session_id: self.session_id.clone(),
        }
    }
}

/// The key that a peer is kept under.
pub open spec fn own_id() -> spec_fn(PeerHandle) -> Seq<char> {
    |p: PeerHandle| p.device_id@
}

/// Whether `a`'s name comes before `b`'s.
pub open spec fn named_before() -> spec_fn(PeerHandle, PeerHandle) -> bool {
    |a: PeerHandle, b: PeerHandle| text::precedes(a.name@, b.name@)
}

/// Those of `l` that are not called `origin`.
pub open spec fn all_but(l: Seq<PeerHandle>, origin: Option<Seq<char>>) -> Seq<PeerHandle>
    decreases l.len(),
{
    if l.len() == 0 {
        l
    } else if origin == Some(l.last().device_id@) {
        all_but(l.drop_last(), origin)
    } else {
        all_but(l.drop_last(), origin).push(l.last())
    }
}

/// What is told to a session that a newer one of the same device replaced.
pub open spec fn superseded_notice() -> MessageView {
    MessageView::Error {
        code: "superseded"@,
        message: "sessão substituída por uma nova conexão do mesmo device"@,
    }
}

/// What is told to a session that a newer one of the same device replaced.
pub fn superseded_message() -> (r: Message)
    ensures
        r@ == superseded_notice(),
{
    Message::Error {
        code: "superseded".to_owned(),
        message: "sessão substituída por uma nova conexão do mesmo device".to_owned(),
    }
}

/// The connected peers, one for each device.
pub struct Peers {
    handles: Table<PeerHandle>,
}

impl View for Peers {
    type V = Map<Seq<char>, PeerHandle>;

    /// The peers under their devices' identifiers.
    closed spec fn view(&self) -> Map<Seq<char>, PeerHandle> {
        self.handles@
    }
}

/// The server's state.
pub struct ServerState {
    pub config: ServerConfig,
    pub pairing: PairingManager,
    pub admission: Admission,
    pub peers: Peers,
}

/// Whether the peer called `id` is connected through session `session_id`.
pub open spec fn is_session(
    peers: Map<Seq<char>, PeerHandle>,
    id: Seq<char>,
    session_id: Seq<char>,
) -> bool {
    peers.contains_key(id) && peers[id].session_id@ == session_id
}

/// Whether `p` is a peer from `addr`: the device `id` called `name`, connected through
/// session `session_id`.
pub open spec fn is_handle(
    p: PeerHandle,
    addr: SocketAddress,
    id: Seq<char>,
    name: Seq<char>,
    session_id: Seq<char>,
) -> bool {
    &&& p.addr == addr
    &&& p.device_id@ == id
    &&& p.name@ == name
    &&& p.session_id@ == session_id
    &&& 0 <= p.connected_at <= clock::LAST_SECOND
}

impl Peers {
    /// Every peer is kept under its own device.
    pub closed spec fn wf(&self) -> bool {
        &&& self.handles.wf()
        &&& forall|k: Seq<char>| #[trigger]
            self.handles@.contains_key(k) ==> self.handles@[k].device_id@ == k
    }

    /// No peer.
    pub fn new() -> (r: Self)
        ensures
            r.wf(),
            r@ == Map::<Seq<char>, PeerHandle>::empty(),
    {
        Peers { handles: Table::new() }
    }

    fn put(&mut self, handle: PeerHandle) -> (r: Option<PeerHandle>)
        requires
            old(self).wf(),
        ensures
            final(self).wf(),
            final(self)@ == old(self)@.insert(handle.device_id@, handle),
            r is Some == old(self)@.contains_key(handle.device_id@),
            r matches Some(p) ==> p == old(self)@[handle.device_id@],
    {
        let replaced = match self.handles.get(handle.device_id.as_str()) {
            Some(p) => Some(p.clone()),
            None => None,
        };
        self.handles.insert(handle.device_id.to_string(), handle);
        replaced
    }

    fn take(&mut self, device_id: &DeviceId, session_id: &str) -> (r: Option<PeerHandle>)
        requires
            old(self).wf(),
        ensures
            final(self).wf(),
            r is Some == is_session(old(self)@, device_id@, session_id@),
            r matches Some(p) ==> p == old(self)@[device_id@],
            final(self)@ == if r is Some {
                old(self)@.remove(device_id@)
            } else {
                old(self)@
            },
    {
        let current = match self.handles.get(device_id.as_str()) {
            Some(p) => text::same(p.session_id.as_str(), session_id),
            None => false,
        };
        if current {
            self.handles.remove(device_id.as_str())
        } else {
            None
        }
    }

    fn listed(&self) -> (r: Vec<PeerHandle>)
        requires
            self.wf(),
        ensures
            table::lists_all(r@, own_id(), self@),
            r@.len() == self@.len(),
    {
        let n: usize = self.handles.len();
        let mut r: Vec<PeerHandle> = Vec::new();
        let mut i: usize = 0;
        while i < n
            invariant
                i <= n,
                n == self.handles.list().len(),
                r@.len() == i,
                forall|k: int| 0 <= k < i ==> #[trigger] r@[k] == self.handles.list()[k].1,
            decreases n - i,
        {
            r.push(self.handles.value_at(i).clone());
            i = i + 1;
        }
        proof {
            table::lemma_entries_list_all(self.handles.list(), r@, own_id());
        }
        r
    }

    /// The peers that are to hear of something that came from `origin`: every connected
    /// peer but the one it came from.
    pub fn all_except(&self, origin: Option<&DeviceId>) -> (r: Vec<PeerHandle>)
        requires
            self.wf(),
        ensures
            table::lists_all(
                r@,
                own_id(),
                match origin {
                    Some(o) => self@.remove(o@),
                    None => self@,
                },
            ),
    {
        let all = self.listed();
        let ghost o = crate::auth::ref_id(origin);
        let mut r: Vec<PeerHandle> = Vec::new();
        let mut i: usize = 0;
        while i < all.len()
            invariant
                i <= all@.len(),
                o == crate::auth::ref_id(origin),
                r@ == all_but(all@.take(i as int), o),
            decreases all@.len() - i,
        {
            assert(all@.take(i + 1).drop_last() =~= all@.take(i as int));
            let skip = match origin {
                Some(id) => text::same(all[i].device_id.as_str(), id.as_str()),
                None => false,
            };
            if !skip {
                r.push(all[i].clone());
            }
            i = i + 1;
        }
        proof {
            assert(all@.take(i as int) =~= all@);
            lemma_all_but(all@, o, self@);
        }
        r
    }

    /// How many peers are connected.
    pub fn count(&self) -> (r: usize)
        requires
            self.wf(),
        ensures
            r == self@.len(),
            self@.dom().finite(),
    {
        self.handles.len()
    }

    /// The connected peers in the order of their names.
    pub fn by_name(&self) -> (r: Vec<PeerHandle>)
        requires
            self.wf(),
        ensures
            table::lists_all(r@, own_id(), self@),
            forall|i: int, j: int|
                0 <= i < j < r@.len() ==> !text::precedes(
                    (#[trigger] r@[j]).name@,
                    (#[trigger] r@[i]).name@,
                ),
    {
        let l = self.listed();
        let ghost source = l@;
        let ghost order = |i: int, j: int| named_before()(source[i], source[j]);
        let before = |i: usize, j: usize| -> (b: bool)
            requires
                i < l@.len(),
                j < l@.len(),
            ensures
                b == text::precedes(l@[i as int].name@, l@[j as int].name@),
            { text::comes_before(l[i].name.as_str(), l[j].name.as_str()) };
        proof {
            assert forall|i: int, j: int|
                0 <= i < source.len() && 0 <= j < source.len() && #[trigger] order(
                    i,
                    j,
                ) implies !order(j, i) by {
                text::lemma_precedes_asymmetric(source[i].name@, source[j].name@);
            }
            assert forall|i: int, j: int, k: int|
                0 <= i < source.len() && 0 <= j < source.len() && 0 <= k < source.len() && !(
                #[trigger] order(i, j)) && !(#[trigger] order(j, k)) implies !order(i, k) by {
                text::lemma_precedes_negatively_transitive(
                    source[i].name@,
                    source[j].name@,
                    source[k].name@,
                );
            }
        }
        let p = sort::stable_order(l.len(), before, Ghost(order));
        let mut r: Vec<PeerHandle> = Vec::new();
        let mut i: usize = 0;
        while i < p.len()
            invariant
                i <= p@.len(),
                l@ == source,
                sort::is_arrangement(p@, l@.len()),
                r@.len() == i,
                forall|k: int| 0 <= k < i ==> #[trigger] r@[k] == l@[p@[k] as int],
            decreases p@.len() - i,
        {
            r.push(l[p[i]].clone());
            i = i + 1;
        }
        proof {
            assert(sort::is_stable(p@, |i: int, j: int| named_before()(source[i], source[j])));
            assert(sort::is_sorted_from(source, r@, named_before()));
            sort::lemma_sorted_lists_all(source, r@, named_before(), own_id(), self@);
            assert forall|i: int, j: int| 0 <= i < j < r@.len() implies !text::precedes(
                (#[trigger] r@[j]).name@,
                (#[trigger] r@[i]).name@,
            ) by {
                assert(!named_before()(r@[j], r@[i]));
            }
        }
        r
    }
}

impl ServerState {
    /// Every peer is kept under its own device, the devices under theirs, and no limit
    /// is exceeded.
    pub open spec fn wf(&self) -> bool {
        &&& self.peers.wf()
        &&& self.pairing.wf()
        &&& self.admission@.holds_limits()
    }

    /// A server without peers, with the devices of `store`.
    pub fn new(config: ServerConfig, store: TrustedStore) -> (r: Self)
        ensures
            r.wf(),
            r.config == config,
            r.peers@ == Map::<Seq<char>, PeerHandle>::empty(),
            r.pairing@.challenge is None,
            r.pairing@.trusted == crate::pairing::by_id(store.devices@),
            r.admission@.active == 0,
            r.admission@.limits == config.limits,
            r.admission@.windows == Map::<
                crate::server::IpAddress,
                crate::server::Window,
            >::empty(),
    {
        ServerState {
            pairing: PairingManager::with_store(store),
            admission: Admission::new(config.limits),
            peers: Peers::new(),
            config,
        }
    }

    /// Registers a peer as of now. Gives back the session of the same device that it
    /// replaces, which is to be told `superseded_message` and hears no more.
    pub fn add_peer(
        &mut self,
        addr: SocketAddress,
        device_id: &DeviceId,
        name: &str,
        session_id: &str,
    ) -> (r: Option<PeerHandle>)
        requires
            old(self).wf(),
        ensures
            final(self).wf(),
            final(self).config == old(self).config,
            final(self).pairing == old(self).pairing,
            final(self).admission == old(self).admission,
            final(self).peers@.contains_key(device_id@),
            final(self).peers@ == old(self).peers@.insert(
                device_id@,
                final(self).peers@[device_id@],
            ),
            ({
                let p = final(self).peers@[device_id@];
                &&& p.addr == addr
                &&& p.device_id == *device_id
                &&& p.name@ == name@
                &&& p.session_id@ == session_id@
                &&& 0 <= p.connected_at <= clock::LAST_SECOND
            }),
            r is Some == old(self).peers@.contains_key(device_id@),
            r matches Some(p) ==> p == old(self).peers@[device_id@],
    {
        let now: i64 = clock::unix_timestamp();
        self.add_peer_at(addr, device_id, name, session_id, now)
    }

    /// Registers a peer as of `now`.
    pub fn add_peer_at(
        &mut self,
        addr: SocketAddress,
        device_id: &DeviceId,
        name: &str,
        session_id: &str,
        now: i64,
    ) -> (r: Option<PeerHandle>)
        requires
            old(self).wf(),
        ensures
            final(self).wf(),
            final(self).config == old(self).config,
            final(self).pairing == old(self).pairing,
            final(self).admission == old(self).admission,
            final(self).peers@.contains_key(device_id@),
            final(self).peers@ == old(self).peers@.insert(
                device_id@,
                final(self).peers@[device_id@],
            ),
            ({
                let p = final(self).peers@[device_id@];
                &&& p.addr == addr
                &&& p.device_id == *device_id
                &&& p.name@ == name@
                &&& p.session_id@ == session_id@
                &&& p.connected_at == now
            }),
            r is Some == old(self).peers@.contains_key(device_id@),
            r matches Some(p) ==> p == old(self).peers@[device_id@],
    {
        let handle = PeerHandle {
            addr,
            device_id: device_id.clone(),
            name: name.to_owned(),
            connected_at: now,
            session_id: session_id.to_owned(),
        };
        self.peers.put(handle)
    }

    /// Takes out a peer, where it is still connected through session `session_id`: the
    /// end of a session that was replaced leaves the newer one in place.
    pub fn remove_peer(&mut self, device_id: &DeviceId, session_id: &str) -> (r: Option<PeerHandle>)
        requires
            old(self).wf(),
        ensures
            final(self).wf(),
            final(self).config == old(self).config,
            final(self).pairing == old(self).pairing,
            final(self).admission == old(self).admission,
            r is Some == is_session(old(self).peers@, device_id@, session_id@),
            r matches Some(p) ==> p == old(self).peers@[device_id@],
            final(self).peers@ == if r is Some {
                old(self).peers@.remove(device_id@)
            } else {
                old(self).peers@
            },
    {
        self.peers.take(device_id, session_id)
    }

    /// The peers that are to hear of something that came from `origin`: every connected
    /// peer but the one it came from.
    pub fn broadcast_except(&self, origin: Option<&DeviceId>) -> (r: Vec<PeerHandle>)
        requires
            self.wf(),
        ensures
            table::lists_all(
                r@,
                own_id(),
                match origin {
                    Some(o) => self.peers@.remove(o@),
                    None => self.peers@,
                },
            ),
    {
        self.peers.all_except(origin)
    }

    /// How many peers are connected.
    pub fn peer_count(&self) -> (r: usize)
        requires
            self.wf(),
        ensures
            r == self.peers@.len(),
            self.peers@.dom().finite(),
    {
        self.peers.count()
    }

    /// The connected peers in the order of their names.
    pub fn peer_list(&self) -> (r: Vec<PeerHandle>)
        requires
            self.wf(),
        ensures
            table::lists_all(r@, own_id(), self.peers@),
            forall|i: int, j: int|
                0 <= i < j < r@.len() ==> !text::precedes(
                    (#[trigger] r@[j]).name@,
                    (#[trigger] r@[i]).name@,
                ),
    {
        self.peers.by_name()
    }
}

proof fn lemma_all_but(
    l: Seq<PeerHandle>,
    origin: Option<Seq<char>>,
    m: Map<Seq<char>, PeerHandle>,
)
    requires
        table::lists_all(l, own_id(), m),
        forall|k: Seq<char>| #[trigger] m.contains_key(k) ==> m[k].device_id@ == k,
    ensures
        table::lists_all(
            all_but(l, origin),
            own_id(),
            match origin {
                Some(o) => m.remove(o),
                None => m,
            },
        ),
{
    lemma_all_but_members(l, origin);
    let r = all_but(l, origin);
    let n = match origin {
        Some(o) => m.remove(o),
        None => m,
    };
    let id = own_id();
    assert forall|i: int| 0 <= i < r.len() implies n.contains_key(id(#[trigger] r[i])) && n[id(
        r[i],
    )] == r[i] by {
        let k = choose|k: int| 0 <= k < l.len() && #[trigger] l[k] == r[i];
        assert(m.contains_key(id(l[k])));
    }
    assert forall|k: Seq<char>| #[trigger] n.contains_key(k) implies exists|i: int|
        0 <= i < r.len() && #[trigger] r[i] == n[k] by {
        assert(m.contains_key(k));
        let j = choose|j: int| 0 <= j < l.len() && #[trigger] l[j] == m[k];
        assert(l[j].device_id@ == k);
        let i = choose|i: int| 0 <= i < r.len() && #[trigger] r[i] == l[j];
        assert(r[i] == n[k]);
    }
    assert forall|i: int, j: int| 0 <= i < j < r.len() implies id(#[trigger] r[i]) != id(
        #[trigger] r[j],
    ) by {
        lemma_all_but_distinct(l, origin);
        assert(r[i].device_id@ != r[j].device_id@);
    }
}

proof fn lemma_all_but_members(l: Seq<PeerHandle>, origin: Option<Seq<char>>)
    ensures
        forall|i: int|
            0 <= i < all_but(l, origin).len() ==> origin != Some(
                (#[trigger] all_but(l, origin)[i]).device_id@,
            ) && exists|k: int| 0 <= k < l.len() && #[trigger] l[k] == all_but(l, origin)[i],
        forall|k: int|
            0 <= k < l.len() && origin != Some((#[trigger] l[k]).device_id@) ==> exists|i: int|
                0 <= i < all_but(l, origin).len() && #[trigger] all_but(l, origin)[i] == l[k],
    decreases l.len(),
{
    if l.len() > 0 {
        let d = l.drop_last();
        lemma_all_but_members(d, origin);
        let r = all_but(l, origin);
        let q = all_but(d, origin);
        assert forall|i: int| 0 <= i < r.len() implies origin != Some((#[trigger] r[i]).device_id@)
            && exists|k: int| 0 <= k < l.len() && #[trigger] l[k] == r[i] by {
            if i < q.len() {
                assert(r[i] == q[i]);
                let k = choose|k: int| 0 <= k < d.len() && #[trigger] d[k] == q[i];
                assert(l[k] == r[i]);
            } else {
                assert(l[l.len() - 1] == r[i]);
            }
        }
        assert forall|k: int|
            0 <= k < l.len() && origin != Some((#[trigger] l[k]).device_id@) implies exists|i: int|
            0 <= i < r.len() && #[trigger] r[i] == l[k] by {
            if k < d.len() {
                assert(d[k] == l[k]);
                let i = choose|i: int| 0 <= i < q.len() && #[trigger] q[i] == d[k];
                assert(r[i] == l[k]);
            } else {
                assert(r[r.len() - 1] == l[k]);
            }
        }
    }
}

proof fn lemma_all_but_distinct(l: Seq<PeerHandle>, origin: Option<Seq<char>>)
    requires
        forall|i: int, j: int|
            0 <= i < j < l.len() ==> own_id()(#[trigger] l[i]) != own_id()(#[trigger] l[j]),
    ensures
        forall|i: int, j: int|
            0 <= i < j < all_but(l, origin).len() ==> (
            #[trigger] all_but(l, origin)[i]).device_id@ != (
            #[trigger] all_but(l, origin)[j]).device_id@,
    decreases l.len(),
{
    if l.len() > 0 {
        let d = l.drop_last();
        assert forall|i: int, j: int| 0 <= i < j < d.len() implies own_id()(#[trigger] d[i])
            != own_id()(#[trigger] d[j]) by {
            assert(own_id()(l[i]) != own_id()(l[j]));
        }
        lemma_all_but_distinct(d, origin);
        lemma_all_but_members(d, origin);
        let r = all_but(l, origin);
        let q = all_but(d, origin);
        assert forall|i: int, j: int| 0 <= i < j < r.len() implies (#[trigger] r[i]).device_id@ != (
        #[trigger] r[j]).device_id@ by {
            if j < q.len() {
                assert(q[i].device_id@ != q[j].device_id@);
            } else {
                assert(r[i] == q[i]);
                let k = choose|k: int| 0 <= k < d.len() && #[trigger] d[k] == q[i];
                assert(own_id()(l[k]) != own_id()(l[l.len() - 1]));
            }
        }
    }
}

/// What came from a device is never sent back to it, and everyone else hears of it.
pub proof fn law_no_echo_to_origin(
    peers: Map<Seq<char>, PeerHandle>,
    recipients: Seq<PeerHandle>,
    origin: Seq<char>,
)
    requires
        table::lists_all(recipients, own_id(), peers.remove(origin)),
        forall|k: Seq<char>| #[trigger] peers.contains_key(k) ==> peers[k].device_id@ == k,
    ensures
        forall|i: int|
            0 <= i < recipients.len() ==> (#[trigger] recipients[i]).device_id@ != origin,
        forall|k: Seq<char>| #[trigger]
            peers.contains_key(k) && k != origin ==> exists|i: int|
                0 <= i < recipients.len() && (#[trigger] recipients[i]).device_id@ == k,
{
    assert forall|i: int| 0 <= i < recipients.len() implies (#[trigger] recipients[i]).device_id@
        != origin by {
        assert(peers.remove(origin).contains_key(own_id()(recipients[i])));
    }
    assert forall|k: Seq<char>| #[trigger] peers.contains_key(k) && k != origin implies exists|i: int|
        0 <= i < recipients.len() && (#[trigger] recipients[i]).device_id@ == k by {
        assert(peers.remove(origin).contains_key(k));
        let i = choose|i: int|
            0 <= i < recipients.len() && #[trigger] recipients[i] == peers.remove(origin)[k];
        assert(recipients[i].device_id@ == k);
    }
}

/// A device that connects again is there once, through its newer session; the end of the
/// older session does not take it out.
pub proof fn law_newer_session_stays(
    peers: Map<Seq<char>, PeerHandle>,
    older: PeerHandle,
    newer: PeerHandle,
)
    requires
        older.device_id@ == newer.device_id@,
        older.session_id@ != newer.session_id@,
    ensures
        ({
            let id = newer.device_id@;
            let now = peers.insert(id, older).insert(id, newer);
            &&& now == peers.insert(id, newer)
            &&& is_session(now, id, newer.session_id@)
            &&& !is_session(now, id, older.session_id@)
        }),
{
    let id = newer.device_id@;
    assert(peers.insert(id, older).insert(id, newer) =~= peers.insert(id, newer));
}

/// Everyone who is connected hears of what came from `origin`, once, but the device that it
/// came from; with no origin, everyone does. Nobody else hears of it.
pub proof fn law_everyone_else_hears(
    s: &ServerState,
    origin: Option<&DeviceId>,
    r: Vec<PeerHandle>,
    i: int,
    j: int,
)
    requires
        call_ensures(ServerState::broadcast_except, (s, origin), r),
    ensures
        forall|k: Seq<char>| #[trigger]
            s.peers@.contains_key(k) && (origin is Some ==> k != origin->Some_0.0@)
                ==> r@.contains(s.peers@[k]),
        0 <= i < r@.len() ==> s.peers@.contains_key(r@[i].device_id.0@)
            && s.peers@[r@[i].device_id.0@] == r@[i] && (origin is Some ==> r@[i].device_id.0@
            != origin->Some_0.0@),
        0 <= i < j < r@.len() ==> r@[i].device_id.0@ != r@[j].device_id.0@,
{
    let m = match origin {
        Some(o) => s.peers@.remove(o@),
        None => s.peers@,
    };
    assert forall|k: Seq<char>| #[trigger]
        s.peers@.contains_key(k) && (origin is Some ==> k
            != origin->Some_0.0@) implies r@.contains(s.peers@[k]) by {
        assert(m.contains_key(k));
        assert(m[k] == s.peers@[k]);
    }
    if 0 <= i < r@.len() {
        assert(m.contains_key(own_id()(r@[i])));
    }
    if 0 <= i < j < r@.len() {
        assert(own_id()(r@[i]) != own_id()(r@[j]));
    }
}

/// A peer that is registered is there as it was given, in place of an older session of the
/// same device, which is handed back; all others stay.
pub proof fn law_registering(
    s: &mut ServerState,
    addr: SocketAddress,
    id: &DeviceId,
    name: &str,
    session_id: &str,
    now: i64,
    r: Option<PeerHandle>,
    other: Seq<char>,
)
    requires
        call_ensures(ServerState::add_peer_at, (s, addr, id, name, session_id, now), r),
    ensures
        final(s).peers@.contains_key(id.0@),
        final(s).peers@[id.0@].addr == addr,
        final(s).peers@[id.0@].device_id.0@ == id.0@,
        final(s).peers@[id.0@].name@ == name@,
        final(s).peers@[id.0@].session_id@ == session_id@,
        final(s).peers@[id.0@].connected_at == now,
        other != id.0@ ==> (final(s).peers@.contains_key(other) <==> old(s).peers@.contains_key(
            other,
        )) && (old(s).peers@.contains_key(other) ==> final(s).peers@[other]
            == old(s).peers@[other]),
        r is Some <==> old(s).peers@.contains_key(id.0@),
        r is Some ==> r->Some_0 == old(s).peers@[id.0@],
        final(s).config == old(s).config && final(s).pairing == old(s).pairing
            && final(s).admission == old(s).admission,
{
}

/// A peer is taken out by its own session alone; all others stay.
pub proof fn law_unregistering(
    s: &mut ServerState,
    id: &DeviceId,
    session_id: &str,
    r: Option<PeerHandle>,
    other: Seq<char>,
)
    requires
        call_ensures(ServerState::remove_peer, (s, id, session_id), r),
    ensures
        r is Some <==> old(s).peers@.contains_key(id.0@) && old(s).peers@[id.0@].session_id@
            == session_id@,
        r is Some ==> r->Some_0 == old(s).peers@[id.0@] && !final(s).peers@.contains_key(id.0@),
        r is None ==> final(s).peers@ == old(s).peers@,
        other != id.0@ ==> (final(s).peers@.contains_key(other) <==> old(s).peers@.contains_key(
            other,
        )) && (old(s).peers@.contains_key(other) ==> final(s).peers@[other]
            == old(s).peers@[other]),
{
}

/// The peers are listed all, once each and by name; they are as many as are counted.
pub proof fn law_listing(s: &ServerState, r: Vec<PeerHandle>, n: usize, i: int, j: int)
    requires
        call_ensures(ServerState::peer_list, (s,), r),
        call_ensures(ServerState::peer_count, (s,), n),
    ensures
        n == s.peers@.dom().len(),
        forall|k: Seq<char>| #[trigger] s.peers@.contains_key(k) ==> r@.contains(s.peers@[k]),
        0 <= i < r@.len() ==> s.peers@.contains_key(r@[i].device_id.0@)
            && s.peers@[r@[i].device_id.0@] == r@[i],
        0 <= i < j < r@.len() ==> r@[i].device_id.0@ != r@[j].device_id.0@ && !text::precedes(
            r@[j].name@,
            r@[i].name@,
        ),
{
    assert forall|k: Seq<char>| #[trigger] s.peers@.contains_key(k) implies r@.contains(
        s.peers@[k],
    ) by {}
    if 0 <= i < r@.len() {
        assert(s.peers@.contains_key(own_id()(r@[i])));
    }
    if 0 <= i < j < r@.len() {
        assert(own_id()(r@[i]) != own_id()(r@[j]));
    }
}

/// A ping goes out every 30 seconds, a peer is given up after 60, its queue holds 128, and a
/// session that was replaced is told so.
pub proof fn law_keepalive(ping: u64, idle: u64, queue: usize, m: Message)
    requires
        call_ensures(peer_ping_interval, (), ping),
        call_ensures(peer_idle_timeout, (), idle),
        call_ensures(peer_queue_size, (), queue),
        call_ensures(superseded_message, (), m),
    ensures
        ping == 30 && idle == 60 && queue == 128,
        m is Error && m->Error_code@ == "superseded"@,
{
    assert(m@ is Error);
}

/// A server starts with the devices of its store, nobody connected and nothing counted.
pub proof fn law_start(config: ServerConfig, store: TrustedStore, r: ServerState, k: Seq<char>)
    requires
        call_ensures(ServerState::new, (config, store), r),
    ensures
        r.config == config,
        !r.peers@.contains_key(k),
        r.pairing@.challenge is None,
        r.admission@.active == 0 && r.admission@.limits == config.limits,
{
}

/// A peer that is added is there under its device with all that was told of it; the others
/// stay, and one that it replaces is given back.
pub proof fn law_adding(
    s: &mut ServerState,
    addr: SocketAddress,
    id: &DeviceId,
    name: &str,
    session_id: &str,
    r: Option<PeerHandle>,
    k: Seq<char>,
    n: usize,
    interval: u64,
)
    requires
        call_ensures(ServerState::add_peer, (s, addr, id, name, session_id), r),
        call_ensures(peer_ping_interval_for, (n,), interval),
    ensures
        final(s).peers@.contains_key(id.0@) && {
            let p = final(s).peers@[id.0@];
            &&& p.addr == addr && p.device_id.0@ == id.0@
            &&& p.name@ == name@ && p.session_id@ == session_id@
        },
        k != id.0@ ==> (final(s).peers@.contains_key(k) <==> old(s).peers@.contains_key(k)) && (
        old(s).peers@.contains_key(k) ==> final(s).peers@[k] == old(s).peers@[k]),
        r is Some <==> old(s).peers@.contains_key(id.0@),
        r is Some ==> r->Some_0 == old(s).peers@[id.0@],
        final(s).config == old(s).config && final(s).pairing == old(s).pairing
            && final(s).admission == old(s).admission,
        n == 0 ==> interval == 120,
        n > 0 ==> interval == 30,
{
}

} // verus!
