//! Identities, sessions and the rules that a relay applies before it forwards.
//!
//! A session token is a bearer token: whoever holds it is the session's principal, so
//! it travels under TLS only.

use vstd::prelude::*;

use crate::clock;
use crate::encoding;
use crate::entropy;
use crate::protocol::{DeviceId, Message};
use crate::table::Table;
use crate::text;

verus! {

/// Identifier of a server.
#[derive(Debug, Hash)]
pub struct ServerId(String);

impl View for ServerId {
    type V = Seq<char>;

    closed spec fn view(&self) -> Seq<char> {
        self.0@
    }
}

impl ServerId {
    /// A fresh random identifier.
    pub fn new() -> (r: Self)
        ensures
            entropy::is_uuid(r@),
    {
        ServerId(entropy::new_uuid())
    }

    /// The identifier `value`, unless it is blank.
    pub fn from_string(value: &str) -> (r: Option<Self>)
        ensures
            r is Some == (text::trim_of(value@).len() > 0),
            r matches Some(id) ==> id@ == value@,
    {
        if text::trim(value).as_str().unicode_len() == 0 {
            None
        } else {
            Some(ServerId(value.to_owned()))
        }
    }

    pub fn as_str(&self) -> (r: &str)
        ensures
            r@ == self@,
    {
        self.0.as_str()
    }

    /// The identifier as it is shown.
    pub fn to_string(&self) -> (r: String)
        ensures
            r@ == self@,
    {
        self.0.clone()
    }
}

impl Default for ServerId {
    fn default() -> (r: Self)
        ensures
            entropy::is_uuid(r@),
    {
        ServerId::new()
    }
}

impl Clone for ServerId {
    fn clone(&self) -> (r: Self)
        ensures
            r == *self,
    {
        ServerId(self.0.clone())
    }
}

impl PartialEq for ServerId {
    fn eq(&self, other: &Self) -> (r: bool) {
        self.0 == other.0
    }
}

impl Eq for ServerId {

}

impl vstd::std_specs::cmp::PartialEqSpecImpl for ServerId {
    open spec fn obeys_eq_spec() -> bool {
        true
    }

    open spec fn eq_spec(&self, other: &Self) -> bool {
        self@ == other@
    }
}

/// Identifier of a user.
#[derive(Debug, Hash)]
pub struct UserId(String);

impl View for UserId {
    type V = Seq<char>;

    closed spec fn view(&self) -> Seq<char> {
        self.0@
    }
}

impl UserId {
    /// A fresh random identifier.
    pub fn new() -> (r: Self)
        ensures
            entropy::is_uuid(r@),
    {
        UserId(entropy::new_uuid())
    }

    /// The identifier `value`, unless it is blank.
    pub fn from_string(value: &str) -> (r: Option<Self>)
        ensures
            r is Some == (text::trim_of(value@).len() > 0),
            r matches Some(id) ==> id@ == value@,
    {
        if text::trim(value).as_str().unicode_len() == 0 {
            None
        } else {
            Some(UserId(value.to_owned()))
        }
    }

    pub fn as_str(&self) -> (r: &str)
        ensures
            r@ == self@,
    {
        self.0.as_str()
    }

    /// The identifier as it is shown.
    pub fn to_string(&self) -> (r: String)
        ensures
            r@ == self@,
    {
        self.0.clone()
    }
}

impl Default for UserId {
    fn default() -> (r: Self)
        ensures
            entropy::is_uuid(r@),
    {
        UserId::new()
    }
}

impl Clone for UserId {
    fn clone(&self) -> (r: Self)
        ensures
            r == *self,
    {
        UserId(self.0.clone())
    }
}

impl PartialEq for UserId {
    fn eq(&self, other: &Self) -> (r: bool) {
        self.0 == other.0
    }
}

impl Eq for UserId {

}

impl vstd::std_specs::cmp::PartialEqSpecImpl for UserId {
    open spec fn obeys_eq_spec() -> bool {
        true
    }

    open spec fn eq_spec(&self, other: &Self) -> bool {
        self@ == other@
    }
}

/// Identifier of a group of devices that may exchange content.
#[derive(Debug, Hash)]
pub struct GroupId(String);

impl View for GroupId {
    type V = Seq<char>;

    closed spec fn view(&self) -> Seq<char> {
        self.0@
    }
}

impl GroupId {
    /// A fresh random identifier.
    pub fn new() -> (r: Self)
        ensures
            entropy::is_uuid(r@),
    {
        GroupId(entropy::new_uuid())
    }

    /// The identifier `value`, unless it is blank.
    pub fn from_string(value: &str) -> (r: Option<Self>)
        ensures
            r is Some == (text::trim_of(value@).len() > 0),
            r matches Some(id) ==> id@ == value@,
    {
        if text::trim(value).as_str().unicode_len() == 0 {
            None
        } else {
            Some(GroupId(value.to_owned()))
        }
    }

    pub fn as_str(&self) -> (r: &str)
        ensures
            r@ == self@,
    {
        self.0.as_str()
    }

    /// The identifier as it is shown.
    pub fn to_string(&self) -> (r: String)
        ensures
            r@ == self@,
    {
        self.0.clone()
    }
}

impl Default for GroupId {
    fn default() -> (r: Self)
        ensures
            entropy::is_uuid(r@),
    {
        GroupId::new()
    }
}

impl Clone for GroupId {
    fn clone(&self) -> (r: Self)
        ensures
            r == *self,
    {
        GroupId(self.0.clone())
    }
}

impl PartialEq for GroupId {
    fn eq(&self, other: &Self) -> (r: bool) {
        self.0 == other.0
    }
}

impl Eq for GroupId {

}

impl vstd::std_specs::cmp::PartialEqSpecImpl for GroupId {
    open spec fn obeys_eq_spec() -> bool {
        true
    }

    open spec fn eq_spec(&self, other: &Self) -> bool {
        self@ == other@
    }
}

/// Identifier of one session.
#[derive(Debug, Hash)]
pub struct SessionId(String);

impl View for SessionId {
    type V = Seq<char>;

    closed spec fn view(&self) -> Seq<char> {
        self.0@
    }
}

impl SessionId {
    /// A fresh random identifier.
    pub fn new() -> (r: Self)
        ensures
            entropy::is_uuid(r@),
    {
        SessionId(entropy::new_uuid())
    }

    /// The identifier `value`, unless it is blank.
    pub fn from_string(value: &str) -> (r: Option<Self>)
        ensures
            r is Some == (text::trim_of(value@).len() > 0),
            r matches Some(id) ==> id@ == value@,
    {
        if text::trim(value).as_str().unicode_len() == 0 {
            None
        } else {
            Some(SessionId(value.to_owned()))
        }
    }

    pub fn as_str(&self) -> (r: &str)
        ensures
            r@ == self@,
    {
        self.0.as_str()
    }

    /// The identifier as it is shown.
    pub fn to_string(&self) -> (r: String)
        ensures
            r@ == self@,
    {
        self.0.clone()
    }
}

impl Default for SessionId {
    fn default() -> (r: Self)
        ensures
            entropy::is_uuid(r@),
    {
        SessionId::new()
    }
}

impl Clone for SessionId {
    fn clone(&self) -> (r: Self)
        ensures
            r == *self,
    {
        SessionId(self.0.clone())
    }
}

impl PartialEq for SessionId {
    fn eq(&self, other: &Self) -> (r: bool) {
        self.0 == other.0
    }
}

impl Eq for SessionId {

}

impl vstd::std_specs::cmp::PartialEqSpecImpl for SessionId {
    open spec fn obeys_eq_spec() -> bool {
        true
    }

    open spec fn eq_spec(&self, other: &Self) -> bool {
        self@ == other@
    }
}

/// A participant, apart from the name it shows.
#[derive(Debug, PartialEq, Eq)]
pub struct Principal {
    pub user_id: UserId,
    pub device_id: DeviceId,
}

impl Clone for Principal {
    fn clone(&self) -> (r: Self)
        ensures
            r == *self,
    {
        Principal { user_id: self.user_id.clone(), device_id: self.device_id.clone() }
    }
}

/// What a participant presents after pairing.
#[derive(Debug, PartialEq, Eq)]
pub struct SessionCredential {
    pub session_id: SessionId,
    pub principal: Principal,
    pub token: String,
    pub expires_at: u64,
}

impl Clone for SessionCredential {
    fn clone(&self) -> (r: Self)
        ensures
            r == *self,
    {
        SessionCredential {
            session_id: self.session_id.clone(),
            principal: self.principal.clone(),
            token: self.token.clone(),
            expires_at: self.expires_at,
        }
    }
}

/// Sessions that are open, each with its credential. Times are in seconds since the
/// Unix epoch.
pub struct SessionAuthenticator {
    ttl: u64,
    sessions: Table<SessionCredential>,
}

impl View for SessionAuthenticator {
    type V = Map<Seq<char>, SessionCredential>;

    /// The credential of each session, under the session's identifier.
    closed spec fn view(&self) -> Map<Seq<char>, SessionCredential> {
        self.sessions@
    }
}

/// Whether `token` opens session `id` of `sessions` at time `now`.
pub open spec fn accepted(
    sessions: Map<Seq<char>, SessionCredential>,
    id: Seq<char>,
    token: Seq<char>,
    now: u64,
) -> bool {
    &&& sessions.contains_key(id)
    &&& now <= sessions[id].expires_at
    &&& sessions[id].token@ == token
}

/// `a + b`, or the largest value where that is too large.
pub open spec fn saturated(a: u64, b: u64) -> u64 {
    if a + b > u64::MAX {
        u64::MAX
    } else {
        (a + b) as u64
    }
}

impl SessionAuthenticator {
    pub closed spec fn wf(&self) -> bool {
        self.sessions.wf()
    }

    /// How many seconds a credential is good for.
    pub closed spec fn ttl(&self) -> u64 {
        self.ttl
    }

    /// No session, and credentials that are good for `ttl` seconds.
    pub fn new(ttl: u64) -> (r: Self)
        ensures
            r.wf(),
            r.ttl() == ttl,
            r@ == Map::<Seq<char>, SessionCredential>::empty(),
    {
        SessionAuthenticator { ttl, sessions: Table::new() }
    }

    /// Opens a session for `principal` with a random identifier and a random token of
    /// 64 hexadecimal digits.
    pub fn issue(&mut self, principal: Principal) -> (r: SessionCredential)
        requires
            old(self).wf(),
        ensures
            final(self).wf(),
            final(self).ttl() == old(self).ttl(),
            final(self)@ == old(self)@.insert(r.session_id@, r),
            entropy::is_uuid(r.session_id@),
            r.principal == principal,
            exists|secret: Seq<u8>| secret.len() == 32 && r.token@ == #[trigger] encoding::hex_of(secret),
            exists|now: u64| r.expires_at == #[trigger] saturated(now, old(self).ttl()),
    {
        let session_id = SessionId::new();
        let secret = entropy::random_bytes(32);
        let now: u64 = clock::unix_seconds();
        assert(encoding::hex_of(secret@) == encoding::hex_of(secret@));
        assert(saturated(now, self.ttl()) == saturated(now, self.ttl()));
        self.issue_at(principal, session_id, secret.as_slice(), now)
    }

    /// Opens session `session_id` for `principal` at time `now`, with `secret` in
    /// hexadecimal as its token.
    pub fn issue_at(&mut self, principal: Principal, session_id: SessionId, secret: &[u8], now: u64) -> (r:
        SessionCredential)
        requires
            old(self).wf(),
            2 * secret@.len() <= isize::MAX,
        ensures
            final(self).wf(),
            final(self).ttl() == old(self).ttl(),
            final(self)@ == old(self)@.insert(session_id@, r),
            r.session_id == session_id,
            r.principal == principal,
            r.token@ == encoding::hex_of(secret@),
            r.expires_at == saturated(now, old(self).ttl()),
    {
        let credential = SessionCredential {
            session_id: session_id.clone(),
            principal,
            token: encoding::hex_encode(secret),
            expires_at: now.saturating_add(self.ttl),
        };
        self.sessions.insert(session_id.to_string(), credential.clone());
        credential
    }

    /// The principal of session `session_id`, where `token` is its token and it has not
    /// expired.
    pub fn authenticate(&self, session_id: &SessionId, token: &str) -> (r: Option<Principal>)
        requires
            self.wf(),
        ensures
            exists|now: u64| r is Some == #[trigger] accepted(self@, session_id@, token@, now),
            r matches Some(p) ==> p == self@[session_id@].principal,
    {
        let now: u64 = clock::unix_seconds();
        let r = self.authenticate_at(session_id, token, now);
        assert(r is Some == accepted(self@, session_id@, token@, now));
        r
    }

    /// The principal of session `session_id`, where `token` is its token and it has not
    /// expired before `now`.
    pub fn authenticate_at(&self, session_id: &SessionId, token: &str, now: u64) -> (r: Option<
        Principal,
    >)
        requires
            self.wf(),
        ensures
            r is Some == accepted(self@, session_id@, token@, now),
            r matches Some(p) ==> p == self@[session_id@].principal,
    {
        match self.sessions.get(session_id.as_str()) {
            None => None,
            Some(credential) => {
                if credential.expires_at < now || !constant_time_eq(
                    credential.token.as_str(),
                    token,
                ) {
                    None
                } else {
                    Some(credential.principal.clone())
                }
            },
        }
    }

    /// Closes session `session_id`; whether it was open.
    pub fn revoke(&mut self, session_id: &SessionId) -> (r: bool)
        requires
            old(self).wf(),
        ensures
            final(self).wf(),
            final(self).ttl() == old(self).ttl(),
            final(self)@ == old(self)@.remove(session_id@),
            r == old(self)@.contains_key(session_id@),
    {
        self.sessions.remove(session_id.as_str()).is_some()
    }
}

/// A session that was closed opens for no token.
pub proof fn law_revoked_session_is_refused(
    sessions: Map<Seq<char>, SessionCredential>,
    id: Seq<char>,
    token: Seq<char>,
    now: u64,
)
    ensures
        !accepted(sessions.remove(id), id, token, now),
{
}

/// A credential that was issued opens its session with its own token and no other, until
/// it expires.
pub proof fn law_issued_credential_opens(
    sessions: Map<Seq<char>, SessionCredential>,
    c: SessionCredential,
    token: Seq<char>,
    now: u64,
)
    ensures
        accepted(sessions.insert(c.session_id@, c), c.session_id@, token, now) == (token
            == c.token@ && now <= c.expires_at),
{
}

/// Two texts compared in a time that does not depend on where they differ.
pub fn constant_time_eq(left: &str, right: &str) -> (r: bool)
    ensures
        r == (left@ == right@),
{
    let a = left.as_bytes();
    let b = right.as_bytes();
    let n: usize = if a.len() < b.len() { a.len() } else { b.len() };
    let x: u64 = a.len() as u64;
    let y: u64 = b.len() as u64;
    let mut difference: u64 = x ^ y;
    assert((x ^ y == 0) == (x == y)) by (bit_vector);
    assert(a@.take(0) =~= b@.take(0));
    let mut i: usize = 0;
    while i < n
        invariant
            i <= n,
            n <= a@.len(),
            n <= b@.len(),
            (difference == 0) == (a@.len() == b@.len() && a@.take(i as int) == b@.take(i as int)),
        decreases n - i,
    {
        let p: u64 = a[i] as u64;
        let q: u64 = b[i] as u64;
        let d = difference;
        difference = d | (p ^ q);
        assert((d | (p ^ q) == 0) == (d == 0 && p == q)) by (bit_vector);
        assert(a@.take(i + 1) =~= a@.take(i as int).push(a@[i as int]));
        assert(b@.take(i + 1) =~= b@.take(i as int).push(b@[i as int]));
        assert(a@.take(i + 1).drop_last() =~= a@.take(i as int));
        assert(b@.take(i + 1).drop_last() =~= b@.take(i as int));
        assert(a@.take(i + 1).last() == a@[i as int]);
        assert(b@.take(i + 1).last() == b@[i as int]);
        i = i + 1;
    }
    proof {
        vstd::utf8::encode_utf8_decode_utf8(left@);
        vstd::utf8::encode_utf8_decode_utf8(right@);
        if a@.len() == b@.len() {
            assert(a@.take(i as int) =~= a@);
            assert(b@.take(i as int) =~= b@);
        }
    }
    difference == 0
}

/// Why a message may not be forwarded.
#[derive(Debug, Clone, Copy, PartialEq, Eq, Structural)]
pub enum AuthorizationError {
    UnknownGroup,
    SourceNotMember,
    DestinationNotMember,
    Replay,
    SourceMismatch,
}

/// Which devices belong to which group. Content moves within one group only.
pub struct GroupAuthorizer {
    groups: Table<Table<()>>,
}

impl View for GroupAuthorizer {
    type V = Map<Seq<char>, Set<Seq<char>>>;

    /// The members of each group.
    closed spec fn view(&self) -> Map<Seq<char>, Set<Seq<char>>> {
        self.groups@.map_values(|members: Table<()>| members@.dom())
    }
}

/// Why `source` may not send to `destination` in `group`, if so.
pub open spec fn group_verdict(
    groups: Map<Seq<char>, Set<Seq<char>>>,
    source: Seq<char>,
    destination: Option<Seq<char>>,
    group: Seq<char>,
) -> Result<(), AuthorizationError> {
    if !groups.contains_key(group) {
        Err(AuthorizationError::UnknownGroup)
    } else if !groups[group].contains(source) {
        Err(AuthorizationError::SourceNotMember)
    } else if destination is Some && !groups[group].contains(destination->Some_0) {
        Err(AuthorizationError::DestinationNotMember)
    } else {
        Ok(())
    }
}

/// The contents of an optional reference to an identifier.
pub open spec fn ref_id(s: Option<&DeviceId>) -> Option<Seq<char>> {
    match s {
        Some(t) => Some(t@),
        None => None,
    }
}

impl Default for GroupAuthorizer {
    fn default() -> (r: Self)
        ensures
            r.wf(),
            r@ == Map::<Seq<char>, Set<Seq<char>>>::empty(),
    {
        let r = GroupAuthorizer { groups: Table::new() };
        assert(r@ =~= Map::<Seq<char>, Set<Seq<char>>>::empty());
        r
    }
}

impl GroupAuthorizer {
    pub closed spec fn wf(&self) -> bool {
        &&& self.groups.wf()
        &&& forall|g: Seq<char>| #[trigger]
            self.groups@.contains_key(g) ==> self.groups@[g].wf()
    }

    /// Adds `device` to `group`, which comes to be where it was unknown.
    pub fn add_member(&mut self, group: GroupId, device: DeviceId)
        requires
            old(self).wf(),
        ensures
            final(self).wf(),
            final(self)@ == old(self)@.insert(
                group@,
                (if old(self)@.contains_key(group@) {
                    old(self)@[group@]
                } else {
                    Set::empty()
                }).insert(device@),
            ),
    {
        let ghost before = *self;
        let mut members = match self.groups.remove(group.as_str()) {
            Some(m) => m,
            None => Table::new(),
        };
        let ghost was = members@;
        members.insert(device.to_string(), ());
        assert(members@.dom() =~= was.dom().insert(device@));
        self.groups.insert(group.to_string(), members);
        assert(self@ =~= before@.insert(
            group@,
            (if before@.contains_key(group@) {
                before@[group@]
            } else {
                Set::empty()
            }).insert(device@),
        ));
    }

    /// Takes `device` out of `group`; whether it was a member. The group stays known.
    pub fn remove_member(&mut self, group: &GroupId, device: &DeviceId) -> (r: bool)
        requires
            old(self).wf(),
        ensures
            final(self).wf(),
            r == (old(self)@.contains_key(group@) && old(self)@[group@].contains(device@)),
            final(self)@ == if old(self)@.contains_key(group@) {
                old(self)@.insert(group@, old(self)@[group@].remove(device@))
            } else {
                old(self)@
            },
    {
        let ghost before = *self;
        match self.groups.remove(group.as_str()) {
            None => {
                assert(self@ =~= before@);
                false
            },
            Some(mut members) => {
                let ghost was = members@;
                let r = members.remove(device.as_str()).is_some();
                assert(members@.dom() =~= was.dom().remove(device@));
                self.groups.insert(group.to_string(), members);
                assert(self@ =~= before@.insert(group@, before@[group@].remove(device@)));
                r
            },
        }
    }

    /// Whether `source` may send in `group`: to `destination`, or to all of it.
    pub fn authorize(
        &self,
        source: &DeviceId,
        destination: Option<&DeviceId>,
        group: &GroupId,
    ) -> (r: Result<(), AuthorizationError>)
        requires
            self.wf(),
        ensures
            r == group_verdict(self@, source@, ref_id(destination), group@),
    {
        match self.groups.get(group.as_str()) {
            None => Err(AuthorizationError::UnknownGroup),
            Some(members) => {
                if !members.contains_key(source.as_str()) {
                    return Err(AuthorizationError::SourceNotMember);
                }
                if let Some(id) = destination {
                    if !members.contains_key(id.as_str()) {
                        return Err(AuthorizationError::DestinationNotMember);
                    }
                }
                Ok(())
            },
        }
    }
}

/// Refuses what was sent before: within a session, sequence numbers must rise.
pub struct ReplayProtector {
    highest: Table<u64>,
}

impl View for ReplayProtector {
    type V = Map<Seq<char>, u64>;

    /// The highest sequence number seen in each session.
    closed spec fn view(&self) -> Map<Seq<char>, u64> {
        self.highest@
    }
}

/// The highest sequence number seen in session `id`, 0 at first.
pub open spec fn highest_of(seen: Map<Seq<char>, u64>, id: Seq<char>) -> u64 {
    if seen.contains_key(id) {
        seen[id]
    } else {
        0
    }
}

/// What was seen once `sequence` came in session `id`.
pub open spec fn seen_after(seen: Map<Seq<char>, u64>, id: Seq<char>, sequence: u64) -> Map<
    Seq<char>,
    u64,
> {
    let last = highest_of(seen, id);
    seen.insert(id, if sequence > last { sequence } else { last })
}

impl Default for ReplayProtector {
    fn default() -> (r: Self)
        ensures
            r.wf(),
            r@ == Map::<Seq<char>, u64>::empty(),
    {
        ReplayProtector { highest: Table::new() }
    }
}

impl ReplayProtector {
    pub closed spec fn wf(&self) -> bool {
        self.highest.wf()
    }

    /// Whether `sequence` is higher than everything seen in the session, which it then
    /// becomes.
    pub fn accept(&mut self, session: &SessionId, sequence: u64) -> (r: bool)
        requires
            old(self).wf(),
        ensures
            final(self).wf(),
            r == (sequence > highest_of(old(self)@, session@)),
            final(self)@ == seen_after(old(self)@, session@, sequence),
    {
        let last: u64 = match self.highest.get(session.as_str()) {
            Some(n) => *n,
            None => 0,
        };
        if sequence <= last {
            self.highest.insert(session.to_string(), last);
            false
        } else {
            self.highest.insert(session.to_string(), sequence);
            true
        }
    }

    /// Drops what is known of `session`.
    pub fn forget(&mut self, session: &SessionId)
        requires
            old(self).wf(),
        ensures
            final(self).wf(),
            final(self)@ == old(self)@.remove(session@),
    {
        let _ = self.highest.remove(session.as_str());
    }
}

/// What was seen after the frames `frames` came, each a session and a sequence number.
pub open spec fn seen_after_all(
    seen: Map<Seq<char>, u64>,
    frames: Seq<(Seq<char>, u64)>,
) -> Map<Seq<char>, u64>
    decreases frames.len(),
{
    if frames.len() == 0 {
        seen
    } else {
        seen_after(seen_after_all(seen, frames.drop_last()), frames.last().0, frames.last().1)
    }
}

/// Whether frame `i` of `frames` is accepted after those before it.
pub open spec fn frame_accepted(
    seen: Map<Seq<char>, u64>,
    frames: Seq<(Seq<char>, u64)>,
    i: int,
) -> bool {
    frames[i].1 > highest_of(seen_after_all(seen, frames.take(i)), frames[i].0)
}

proof fn lemma_seen_covers(seen: Map<Seq<char>, u64>, frames: Seq<(Seq<char>, u64)>, i: int)
    requires
        0 <= i < frames.len(),
    ensures
        frames[i].1 <= highest_of(seen_after_all(seen, frames), frames[i].0),
    decreases frames.len(),
{
    if i < frames.len() - 1 {
        lemma_seen_covers(seen, frames.drop_last(), i);
        assert(frames.drop_last()[i] == frames[i]);
    }
}

/// Of the frames that one session has accepted, each has a higher sequence number than
/// those before it, so nothing is accepted twice.
pub proof fn law_accepted_sequences_rise(
    seen: Map<Seq<char>, u64>,
    frames: Seq<(Seq<char>, u64)>,
    i: int,
    j: int,
)
    requires
        0 <= i < j < frames.len(),
        frames[i].0 == frames[j].0,
        frame_accepted(seen, frames, j),
    ensures
        frames[i].1 < frames[j].1,
{
    lemma_seen_covers(seen, frames.take(j), i);
    assert(frames.take(j)[i] == frames[i]);
}

/// A message with the session, the sender and the group that it is sent under.
#[derive(Debug)]
pub struct RelayEnvelope {
    pub session_id: SessionId,
    pub source: DeviceId,
    pub destination: Option<DeviceId>,
    pub group: GroupId,
    pub sequence: u64,
    pub payload: Message,
}

impl Clone for RelayEnvelope {
    fn clone(&self) -> (r: Self)
        ensures
            r == *self,
    {
        RelayEnvelope {
            session_id: self.session_id.clone(),
            source: self.source.clone(),
            destination: crate::protocol::clone_id(&self.destination),
            group: self.group.clone(),
            sequence: self.sequence,
            payload: self.payload.clone(),
        }
    }
}

/// Whether `envelope` may be forwarded for a session that was authenticated as `source`.
pub open spec fn envelope_verdict(
    envelope: RelayEnvelope,
    source: Seq<char>,
    groups: Map<Seq<char>, Set<Seq<char>>>,
    seen: Map<Seq<char>, u64>,
) -> Result<(), AuthorizationError> {
    if envelope.source@ != source {
        Err(AuthorizationError::SourceMismatch)
    } else if envelope.sequence <= highest_of(seen, envelope.session_id@) {
        Err(AuthorizationError::Replay)
    } else {
        group_verdict(
            groups,
            envelope.source@,
            crate::protocol::opt_id(envelope.destination),
            envelope.group@,
        )
    }
}

impl RelayEnvelope {
    /// Lets the envelope pass where its source is the authenticated one, its sequence
    /// number is new and its group allows it. The payload's origin then becomes the
    /// authenticated source. A number counts as seen once the source matched, even
    /// where the group refuses.
    pub fn authorize(
        &mut self,
        authenticated_source: &DeviceId,
        groups: &GroupAuthorizer,
        replay: &mut ReplayProtector,
    ) -> (r: Result<(), AuthorizationError>)
        requires
            groups.wf(),
            old(replay).wf(),
        ensures
            final(replay).wf(),
            r == envelope_verdict(*old(self), authenticated_source@, groups@, old(replay)@),
            final(replay)@ == if old(self).source@ == authenticated_source@ {
                seen_after(old(replay)@, old(self).session_id@, old(self).sequence)
            } else {
                old(replay)@
            },
            r is Err ==> *final(self) == *old(self),
            r is Ok ==> {
                &&& final(self).payload@ == old(self).payload@.with_origin(authenticated_source@)
                &&& *final(self) == (RelayEnvelope { payload: final(self).payload, ..*old(self) })
            },
    {
        if !(self.source == *authenticated_source) {
            return Err(AuthorizationError::SourceMismatch);
        }
        if !replay.accept(&self.session_id, self.sequence) {
            return Err(AuthorizationError::Replay);
        }
        match groups.authorize(&self.source, self.destination.as_ref(), &self.group) {
            Err(e) => Err(e),
            Ok(()) => {
                self.payload = self.payload.clone().with_origin(authenticated_source);
                Ok(())
            },
        }
    }
}

/// What was let through once is refused as a replay when it comes again.
pub proof fn law_second_pass_is_replay(
    envelope: RelayEnvelope,
    source: Seq<char>,
    groups: Map<Seq<char>, Set<Seq<char>>>,
    seen: Map<Seq<char>, u64>,
)
    requires
        envelope_verdict(envelope, source, groups, seen) is Ok,
    ensures
        envelope_verdict(
            envelope,
            source,
            groups,
            seen_after(seen, envelope.session_id@, envelope.sequence),
        ) == Err::<(), AuthorizationError>(AuthorizationError::Replay),
{
}

/// What passes stays in its group: both the source and the destination are members.
pub proof fn law_group_isolation(
    envelope: RelayEnvelope,
    source: Seq<char>,
    groups: Map<Seq<char>, Set<Seq<char>>>,
    seen: Map<Seq<char>, u64>,
)
    requires
        envelope_verdict(envelope, source, groups, seen) is Ok,
    ensures
        groups.contains_key(envelope.group@),
        groups[envelope.group@].contains(source),
        envelope.destination is Some ==> groups[envelope.group@].contains(
            envelope.destination->Some_0@,
        ),
{
}

/// A device may send in a group that is known and has it as a member, to another member or
/// to all; the first thing that is wrong is the reason.
pub proof fn law_group_rules(
    g: &GroupAuthorizer,
    source: &DeviceId,
    destination: Option<&DeviceId>,
    group: &GroupId,
    r: Result<(), AuthorizationError>,
)
    requires
        call_ensures(GroupAuthorizer::authorize, (g, source, destination, group), r),
    ensures
        ({
            let known = g@.contains_key(group@);
            let from = g@[group@].contains(source.0@);
            let to = destination is Some ==> g@[group@].contains(destination->Some_0.0@);
            &&& r is Ok <==> known && from && to
            &&& !known ==> r->Err_0 == AuthorizationError::UnknownGroup
            &&& known && !from ==> r->Err_0 == AuthorizationError::SourceNotMember
            &&& known && from && !to ==> r->Err_0 == AuthorizationError::DestinationNotMember
        }),
{
}

/// A member that is added is there beside those that were, a member that is removed is gone
/// from beside them; other groups are untouched.
pub proof fn law_membership(
    a: &mut GroupAuthorizer,
    group: GroupId,
    device: DeviceId,
    added: (),
    b: &mut GroupAuthorizer,
    removed: bool,
    other_group: Seq<char>,
    other: Seq<char>,
)
    requires
        call_ensures(GroupAuthorizer::add_member, (a, group, device), added),
        call_ensures(GroupAuthorizer::remove_member, (b, &group, &device), removed),
    ensures
        final(a)@.contains_key(group@) && final(a)@[group@].contains(device.0@),
        other != device.0@ ==> (final(a)@[group@].contains(other) <==> old(a)@.contains_key(group@)
            && old(a)@[group@].contains(other)),
        other_group != group@ ==> (final(a)@.contains_key(other_group) <==> old(a)@.contains_key(
            other_group,
        )) && (old(a)@.contains_key(other_group) ==> final(a)@[other_group]
            == old(a)@[other_group]),
        removed <==> old(b)@.contains_key(group@) && old(b)@[group@].contains(device.0@),
        final(b)@.contains_key(group@) <==> old(b)@.contains_key(group@),
        old(b)@.contains_key(group@) ==> !final(b)@[group@].contains(device.0@),
        old(b)@.contains_key(group@) && other != device.0@ ==> (final(b)@[group@].contains(other)
            <==> old(b)@[group@].contains(other)),
        other_group != group@ ==> (final(b)@.contains_key(other_group) <==> old(b)@.contains_key(
            other_group,
        )) && (old(b)@.contains_key(other_group) ==> final(b)@[other_group]
            == old(b)@[other_group]),
{
}

/// Within a session a number is accepted exactly where it is higher than all that came
/// before it, and then counts; other sessions are untouched.
pub proof fn law_numbers_rise(
    p: &mut ReplayProtector,
    session: &SessionId,
    sequence: u64,
    r: bool,
    other: Seq<char>,
)
    requires
        call_ensures(ReplayProtector::accept, (p, session, sequence), r),
    ensures
        r <==> sequence > 0 && (old(p)@.contains_key(session@) ==> old(p)@[session@] < sequence),
        final(p)@.contains_key(session@),
        r ==> final(p)@[session@] == sequence,
        !r && old(p)@.contains_key(session@) ==> final(p)@[session@] == old(p)@[session@],
        other != session@ ==> (final(p)@.contains_key(other) <==> old(p)@.contains_key(other)) && (
        old(p)@.contains_key(other) ==> final(p)@[other] == old(p)@[other]),
{
}

/// An envelope passes where its source is the authenticated device, its number is new and
/// its group allows it; its payload then bears that device as its origin and is otherwise
/// what it was. The rest of the envelope never changes.
pub proof fn law_envelopes_pass(
    e: &mut RelayEnvelope,
    source: &DeviceId,
    groups: &GroupAuthorizer,
    replay: &mut ReplayProtector,
    r: Result<(), AuthorizationError>,
    payload: Message,
)
    requires
        call_ensures(RelayEnvelope::authorize, (e, source, groups, replay), r),
        call_ensures(Message::with_origin, (old(e).payload, source), payload),
    ensures
        ({
            let known = groups@.contains_key(old(e).group@);
            let new = old(e).sequence > 0 && (old(replay)@.contains_key(old(e).session_id@)
                ==> old(replay)@[old(e).session_id@] < old(e).sequence);
            &&& r is Ok <==> old(e).source.0@ == source.0@ && new && known
                && groups@[old(e).group@].contains(source.0@) && (old(e).destination is Some
                ==> groups@[old(e).group@].contains(old(e).destination->Some_0.0@))
            &&& old(e).source.0@ != source.0@ ==> r->Err_0 == AuthorizationError::SourceMismatch
                && final(replay)@ == old(replay)@
            &&& old(e).source.0@ == source.0@ && !new ==> r->Err_0 == AuthorizationError::Replay
        }),
        r is Ok ==> final(e).payload@ == payload@,
        r is Err ==> *final(e) == *old(e),
        final(e).source == old(e).source && final(e).destination == old(e).destination
            && final(e).group == old(e).group && final(e).sequence == old(e).sequence
            && final(e).session_id == old(e).session_id,
{
}

/// A session is opened for its principal with the secret as its token, until its time is
/// over; the sessions that were open stay. Its token opens it until then, and no other does;
/// once it is closed nothing does.
pub proof fn law_sessions(
    a: &mut SessionAuthenticator,
    principal: Principal,
    session_id: SessionId,
    secret: &[u8],
    now: u64,
    c: SessionCredential,
    opened: SessionAuthenticator,
    token: &str,
    later: u64,
    who: Option<Principal>,
    other: Seq<char>,
)
    requires
        call_ensures(SessionAuthenticator::issue_at, (a, principal, session_id, secret, now), c),
        opened == *final(a),
        call_ensures(SessionAuthenticator::authenticate_at, (&opened, &session_id, token, later), who),
    ensures
        c.session_id == session_id && c.principal == principal,
        c.token@ == encoding::hex_of(secret@),
        now + old(a).ttl() <= u64::MAX ==> c.expires_at == now + old(a).ttl(),
        now + old(a).ttl() > u64::MAX ==> c.expires_at == u64::MAX,
        who is Some <==> token@ == encoding::hex_of(secret@) && later <= c.expires_at,
        who is Some ==> who->Some_0 == principal,
        other != session_id@ ==> (final(a)@.contains_key(other) <==> old(a)@.contains_key(other))
            && (old(a)@.contains_key(other) ==> final(a)@[other] == old(a)@[other]),
{
}

/// Closing a session closes that one alone, and nothing opens it again.
pub proof fn law_closing(
    a: &mut SessionAuthenticator,
    session_id: &SessionId,
    was_open: bool,
    closed: SessionAuthenticator,
    token: &str,
    now: u64,
    who: Option<Principal>,
    other: Seq<char>,
)
    requires
        call_ensures(SessionAuthenticator::revoke, (a, session_id), was_open),
        closed == *final(a),
        call_ensures(SessionAuthenticator::authenticate_at, (&closed, session_id, token, now), who),
    ensures
        was_open <==> old(a)@.contains_key(session_id@),
        who is None,
        other != session_id@ ==> (final(a)@.contains_key(other) <==> old(a)@.contains_key(other))
            && (old(a)@.contains_key(other) ==> final(a)@[other] == old(a)@[other]),
{
}

/// Two texts are equal in constant time exactly where they are equal.
pub proof fn law_constant_time_eq(a: &str, b: &str, r: bool)
    requires
        call_ensures(constant_time_eq, (a, b), r),
    ensures
        r <==> a@ == b@,
{
}

/// By the clock, a session is issued to its principal under a fresh name, and is known by its
/// token alone.
pub proof fn law_sessions_by_the_clock(
    a: &mut SessionAuthenticator,
    principal: Principal,
    c: SessionCredential,
    b: &SessionAuthenticator,
    id: &SessionId,
    token: &str,
    who: Option<Principal>,
    other: Seq<char>,
)
    requires
        call_ensures(SessionAuthenticator::issue, (a, principal), c),
        call_ensures(SessionAuthenticator::authenticate, (b, id, token), who),
    ensures
        c.principal == principal && c.session_id@.len() == 36 && c.token@.len() == 64,
        c.expires_at >= old(a).ttl(),
        final(a)@.contains_key(c.session_id@) && final(a)@[c.session_id@] == c,
        other != c.session_id@ ==> (final(a)@.contains_key(other) <==> old(a)@.contains_key(other))
            && (old(a)@.contains_key(other) ==> final(a)@[other] == old(a)@[other]),
        who is Some ==> b@.contains_key(id@) && b@[id@].token@ == token@ && who->Some_0
            == b@[id@].principal,
        b@.contains_key(id@) && b@[id@].token@ == token@ && b@[id@].expires_at == u64::MAX
            ==> who is Some,
{
    let secret = choose|secret: Seq<u8>|
        secret.len() == 32 && c.token@ == #[trigger] encoding::hex_of(secret);
    encoding::law_hex_round_trip(secret);
    let now = choose|now: u64| c.expires_at == #[trigger] saturated(now, old(a).ttl());
    assert(saturated(now, old(a).ttl()) >= old(a).ttl());
    let then = choose|now: u64| who is Some == #[trigger] accepted(b@, id@, token@, now);
    assert(who is Some == accepted(b@, id@, token@, then));
}

/// What was seen of a session is forgotten, and of no other.
pub proof fn law_forgetting(p: &mut ReplayProtector, s: &SessionId, r: (), other: Seq<char>)
    requires
        call_ensures(ReplayProtector::forget, (p, s), r),
    ensures
        !final(p)@.contains_key(s@),
        other != s@ ==> (final(p)@.contains_key(other) <==> old(p)@.contains_key(other)) && (
        old(p)@.contains_key(other) ==> final(p)@[other] == old(p)@[other]),
{
}

} // verus!
