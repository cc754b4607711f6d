//! One peer's session: the connection, and the device at its other end once it is known.

use vstd::prelude::*;

use crate::entropy;
use crate::protocol::{opt_id, DeviceId};
use crate::server::SocketAddress;
use crate::state::{is_handle, is_session, PeerHandle, ServerState};

verus! {

/// A connection to a peer.
#[derive(Debug)]
pub struct PeerSession {
    pub addr: SocketAddress,
    /// The device, once it was recognised or paired.
    pub device_id: Option<DeviceId>,
    pub name: String,
    /// The connection's own identifier.
    pub session_id: String,
}

impl PeerSession {
    /// A connection from `addr` with a random identifier.
    pub fn new(addr: SocketAddress) -> (r: Self)
        ensures
            r.addr == addr,
            r.device_id is None,
            r.name@ == Seq::<char>::empty(),
            entropy::is_uuid(r.session_id@),
    {
        PeerSession { addr, device_id: None, name: String::new(), session_id: entropy::new_uuid() }
    }

    /// A connection from `addr` called `session_id`.
    pub fn with_id(addr: SocketAddress, session_id: &str) -> (r: Self)
        ensures
            r.addr == addr,
            r.device_id is None,
            r.name@ == Seq::<char>::empty(),
            r.session_id@ == session_id@,
    {
        PeerSession {
            addr,
            device_id: None,
            name: String::new(),
            session_id: session_id.to_owned(),
        }
    }

    pub fn session_id(&self) -> (r: &str)
        ensures
            r@ == self.session_id@,
    {
        self.session_id.as_str()
    }

    /// Ties the session to a device and registers it. Gives back the session of the same
    /// device that it replaces.
    pub fn attach(&mut self, state: &mut ServerState, device_id: DeviceId, name: &str) -> (r: Option<
        PeerHandle,
    >)
        requires
            old(state).wf(),
        ensures
            final(state).wf(),
            final(state).config == old(state).config,
            final(state).pairing == old(state).pairing,
            final(state).admission == old(state).admission,
            final(self).device_id == Some(device_id),
            final(self).name@ == name@,
            final(self).addr == old(self).addr,
            final(self).session_id == old(self).session_id,
            is_session(final(state).peers@, device_id@, old(self).session_id@),
            final(state).peers@ == old(state).peers@.insert(
                device_id@,
                final(state).peers@[device_id@],
            ),
            is_handle(
                final(state).peers@[device_id@],
                old(self).addr,
                device_id@,
                name@,
                old(self).session_id@,
            ),
            r is Some == old(state).peers@.contains_key(device_id@),
            r matches Some(p) ==> p == old(state).peers@[device_id@],
    {
        let replaced = state.add_peer(self.addr, &device_id, name, self.session_id.as_str());
        self.device_id = Some(device_id);
        self.name = name.to_owned();
        replaced
    }

    /// Ends the session: its peer is taken out, unless a newer session replaced it.
    pub fn detach(&mut self, state: &mut ServerState)
        requires
            old(state).wf(),
        ensures
            final(state).wf(),
            final(state).config == old(state).config,
            final(state).pairing == old(state).pairing,
            final(state).admission == old(state).admission,
            *final(self) == (PeerSession { device_id: None, ..*old(self) }),
            final(state).peers@ == match old(self).device_id {
                Some(id) => if is_session(old(state).peers@, id@, old(self).session_id@) {
                    old(state).peers@.remove(id@)
                } else {
                    old(state).peers@
                },
                None => old(state).peers@,
            },
    {
        match self.device_id.take() {
            Some(id) => {
                let _ = state.remove_peer(&id, self.session_id.as_str());
            },
            None => {},
        }
    }

    /// The device at the other end.
    pub fn peer_id(&self) -> (r: &DeviceId)
        requires
            self.device_id is Some,
        ensures
            opt_id(self.device_id) == Some(r@),
            self.device_id == Some(*r),
    {
        match &self.device_id {
            Some(id) => id,
            None => vstd::pervasive::unreached(),
        }
    }
}

/// A session that is tied to a device is there under that device, and once it is untied it is
/// not; another session of the device, and every other peer, stays.
pub proof fn law_tying(
    p: &mut PeerSession,
    s: &mut ServerState,
    id: DeviceId,
    name: &str,
    replaced: Option<PeerHandle>,
    q: &mut PeerSession,
    t: &mut ServerState,
    untied: (),
    k: Seq<char>,
)
    requires
        call_ensures(PeerSession::attach, (p, s, id, name), replaced),
        call_ensures(PeerSession::detach, (q, t), untied),
    ensures
        final(p).device_id == Some(id) && final(p).name@ == name@ && final(p).session_id
            == old(p).session_id,
        final(s).peers@.contains_key(id.0@) && final(s).peers@[id.0@].session_id@
            == old(p).session_id@ && final(s).peers@[id.0@].name@ == name@
            && final(s).peers@[id.0@].addr == old(p).addr,
        k != id.0@ ==> (final(s).peers@.contains_key(k) <==> old(s).peers@.contains_key(k)) && (
        old(s).peers@.contains_key(k) ==> final(s).peers@[k] == old(s).peers@[k]),
        replaced is Some <==> old(s).peers@.contains_key(id.0@),
        final(q).device_id is None,
        old(q).device_id is Some && k == old(q).device_id->Some_0.0@ && old(t).peers@.contains_key(k)
            && old(t).peers@[k].session_id@ == old(q).session_id@ ==> !final(t).peers@.contains_key(
            k,
        ),
        old(t).peers@.contains_key(k) && !(old(q).device_id is Some && k
            == old(q).device_id->Some_0.0@ && old(t).peers@[k].session_id@ == old(q).session_id@)
            ==> final(t).peers@.contains_key(k) && final(t).peers@[k] == old(t).peers@[k],
{
}

} // verus!
