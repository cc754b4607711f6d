//! Pairing by a six-digit code, and the devices that are trusted.
//!
//! The daemon shows the code and the user types it on the other device. What is sent
//! out is a challenge's identifier, a nonce and an expiry; the code never is. A device
//! that answers right is trusted from then on.
//!
//! At most one challenge is open. A change of trust takes effect only once the caller
//! has saved it: `TrustedStore` is what to save, and `commit` takes in how that went.

use vstd::prelude::*;

use crate::clock;
use crate::encoding;
use crate::entropy;
use crate::error::Error;
use crate::protocol::{DeviceId, PairFailReason};
use crate::sort;
use crate::table;
use crate::table::Table;
use crate::text;

verus! {

/// How long a code is good for by default, in seconds.
pub const DEFAULT_PIN_TTL: u64 = 120;

/// How many wrong codes a challenge takes before it ends.
pub const MAX_ATTEMPTS: u8 = 5;

/// Why pairing failed.
#[derive(Debug, PartialEq, Eq)]
pub enum PairingError {
    Invalid(PairFailReason),
    /// The new trust could not be saved.
    Store(Error),
}

impl From<Error> for PairingError {
    fn from(error: Error) -> (r: Self) {
        PairingError::Store(error)
    }
}

impl vstd::std_specs::convert::FromSpecImpl<Error> for PairingError {
    open spec fn obeys_from_spec() -> bool {
        true
    }

    open spec fn from_spec(error: Error) -> Self {
        PairingError::Store(error)
    }
}

/// An open challenge. Its expiry is in nanoseconds of the manager's clock.
#[derive(Debug)]
pub struct PairChallenge {
    pub challenge_id: String,
    /// The code, shown on this side only.
    pub code: String,
    pub nonce: String,
    pub expires_at: u128,
    pub attempts_left: u8,
    /// The connection that asked for pairing.
    pub session_id: String,
    pub device_name: String,
}

impl Clone for PairChallenge {
    fn clone(&self) -> (r: Self)
        ensures
            r == *self,
    {
        PairChallenge {
            challenge_id: self.challenge_id.clone(),
            code: self.code.clone(),
            nonce: self.nonce.clone(),
            expires_at: self.expires_at,
            attempts_left: self.attempts_left,
            session_id: self.session_id.clone(),
            device_name: self.device_name.clone(),
        }
    }
}

/// A paired device. Times are in seconds since the Unix epoch.
#[derive(Debug, PartialEq, Eq)]
pub struct TrustedDevice {
    pub id: DeviceId,
    pub name: String,
    pub kind: String,
    pub last_seen: i64,
    pub paired_at: i64,
    /// Whether the device connects without a code.
    pub trusted: bool,
}

impl Clone for TrustedDevice {
    fn clone(&self) -> (r: Self)
        ensures
            r == *self,
    {
        TrustedDevice {
            id: self.id.clone(),
            name: self.name.clone(),
            kind: self.kind.clone(),
            last_seen: self.last_seen,
            paired_at: self.paired_at,
            trusted: self.trusted,
        }
    }
}

/// Whether `a` was seen after `b`.
pub open spec fn seen_later() -> spec_fn(TrustedDevice, TrustedDevice) -> bool {
    |a: TrustedDevice, b: TrustedDevice| a.last_seen > b.last_seen
}

/// The trusted devices as they are saved.
#[derive(Debug, PartialEq, Eq)]
pub struct TrustedStore {
    pub devices: Vec<TrustedDevice>,
}

impl Default for TrustedStore {
    fn default() -> (r: Self)
        ensures
            r.devices@.len() == 0,
    {
        TrustedStore { devices: Vec::new() }
    }
}

/// The devices of `l` but for those called `id`.
pub open spec fn without(l: Seq<TrustedDevice>, id: Seq<char>) -> Seq<TrustedDevice>
    decreases l.len(),
{
    if l.len() == 0 {
        l
    } else if l.last().id@ == id {
        without(l.drop_last(), id)
    } else {
        without(l.drop_last(), id).push(l.last())
    }
}

proof fn lemma_without(l: Seq<TrustedDevice>, id: Seq<char>)
    ensures
        without(l, id).len() <= l.len(),
        without(l, id).len() == l.len() <==> forall|i: int|
            0 <= i < l.len() ==> (#[trigger] l[i]).id@ != id,
        forall|i: int| 0 <= i < without(l, id).len() ==> (#[trigger] without(l, id)[i]).id@ != id,
    decreases l.len(),
{
    if l.len() > 0 {
        lemma_without(l.drop_last(), id);
        let d = l.drop_last();
        if without(l, id).len() == l.len() {
            assert forall|i: int| 0 <= i < l.len() implies (#[trigger] l[i]).id@ != id by {
                if i < d.len() {
                    assert(d[i].id@ != id);
                }
            }
        }
        if forall|i: int| 0 <= i < l.len() ==> (#[trigger] l[i]).id@ != id {
            assert forall|i: int| 0 <= i < d.len() implies (#[trigger] d[i]).id@ != id by {
                assert(l[i].id@ != id);
            }
            assert(l[l.len() - 1].id@ != id);
        }
    }
}

/// References to the elements of `l` at the places of `order`.
fn picked<'a>(l: &Vec<&'a TrustedDevice>, order: &Vec<usize>) -> (r: Vec<&'a TrustedDevice>)
    requires
        forall|a: int| 0 <= a < order@.len() ==> (#[trigger] order@[a]) < l@.len(),
    ensures
        r@.len() == order@.len(),
        forall|i: int| 0 <= i < r@.len() ==> #[trigger] r@[i] == l@[order@[i] as int],
{
    let mut r: Vec<&'a TrustedDevice> = Vec::new();
    let mut i: usize = 0;
    while i < order.len()
        invariant
            i <= order@.len(),
            r@.len() == i,
            forall|a: int| 0 <= a < order@.len() ==> (#[trigger] order@[a]) < l@.len(),
            forall|k: int| 0 <= k < i ==> #[trigger] r@[k] == l@[order@[k] as int],
        decreases order@.len() - i,
    {
        r.push(l[order[i]]);
        i = i + 1;
    }
    r
}

/// The devices that references stand for.
pub open spec fn derefs(l: Seq<&TrustedDevice>) -> Seq<TrustedDevice> {
    l.map_values(|d: &TrustedDevice| *d)
}

/// The devices of `l`, those seen last first.
fn latest_first<'a>(l: &Vec<&'a TrustedDevice>) -> (r: Vec<&'a TrustedDevice>)
    ensures
        sort::is_sorted_from(derefs(l@), derefs(r@), seen_later()),
{
    let ghost source = derefs(l@);
    let ghost order = |i: int, j: int| seen_later()(source[i], source[j]);
    let before = |i: usize, j: usize| -> (b: bool)
        requires
            i < l@.len(),
            j < l@.len(),
        ensures
            b == (l@[i as int].last_seen > l@[j as int].last_seen),
        { l[i].last_seen > l[j].last_seen };
    let p = sort::stable_order(l.len(), before, Ghost(order));
    let r = picked(l, &p);
    proof {
        let out = derefs(r@);
        assert(sort::is_arrangement(p@, source.len()));
        assert forall|i: int| 0 <= i < out.len() implies #[trigger] out[i] == source[p@[i] as int] by {
            assert(r@[i] == l@[p@[i] as int]);
        }
        assert(sort::is_stable(p@, |i: int, j: int| seen_later()(source[i], source[j])));
    }
    r
}

impl TrustedStore {
    /// The devices, those seen last first.
    pub fn trusted_devices(&self) -> (r: Vec<&TrustedDevice>)
        ensures
            sort::is_sorted_from(self.devices@, derefs(r@), seen_later()),
    {
        let mut l: Vec<&TrustedDevice> = Vec::new();
        let mut i: usize = 0;
        while i < self.devices.len()
            invariant
                i <= self.devices@.len(),
                l@.len() == i,
                forall|k: int| 0 <= k < i ==> *(#[trigger] l@[k]) == self.devices@[k],
            decreases self.devices@.len() - i,
        {
            l.push(&self.devices[i]);
            i = i + 1;
        }
        assert(derefs(l@) =~= self.devices@);
        latest_first(&l)
    }

    /// Takes out the devices called `id`; whether there was one.
    pub fn remove(&mut self, id: &str) -> (r: bool)
        ensures
            final(self).devices@ == without(old(self).devices@, id@),
            r == exists|i: int|
                0 <= i < old(self).devices@.len() && (#[trigger] old(self).devices@[i]).id@ == id@,
    {
        let mut kept: Vec<TrustedDevice> = Vec::new();
        let mut i: usize = 0;
        while i < self.devices.len()
            invariant
                i <= self.devices@.len(),
                kept@ == without(self.devices@.take(i as int), id@),
            decreases self.devices@.len() - i,
        {
            assert(self.devices@.take(i + 1).drop_last() =~= self.devices@.take(i as int));
            if !text::same(self.devices[i].id.as_str(), id) {
                kept.push(self.devices[i].clone());
            }
            i = i + 1;
        }
        proof {
            assert(self.devices@.take(i as int) =~= self.devices@);
            lemma_without(self.devices@, id@);
        }
        let removed = kept.len() != self.devices.len();
        self.devices = kept;
        removed
    }
}

/// A change of what is trusted.
#[derive(Debug)]
pub enum TrustChange {
    /// A device answered the open challenge.
    Pair(TrustedDevice),
    /// A device is trusted without pairing.
    Trust(TrustedDevice),
    /// A device is no longer known.
    Remove(DeviceId),
}

/// Open challenge and trusted devices.
pub struct PairingManager {
    challenge: Option<PairChallenge>,
    trusted: Table<TrustedDevice>,
    started: std::time::Instant,
}

/// The contents of a `PairingManager`: the open challenge, and the known devices under
/// their identifiers.
pub struct PairingView {
    pub challenge: Option<PairChallenge>,
    pub trusted: Map<Seq<char>, TrustedDevice>,
}

impl View for PairingManager {
    type V = PairingView;

    closed spec fn view(&self) -> PairingView {
        PairingView { challenge: self.challenge, trusted: self.trusted@ }
    }
}

/// Whether `s` is a pairing code: six digits, the first not 0.
pub open spec fn is_pin(s: Seq<char>) -> bool {
    &&& s.len() == 6
    &&& forall|i: int| 0 <= i < 6 ==> text::is_digit(#[trigger] s[i])
    &&& s[0] != '0'
}

proof fn lemma_six_digits(n: nat)
    requires
        100_000 <= n <= 999_999,
    ensures
        is_pin(text::decimal_of(n)),
{
    reveal_with_fuel(text::decimal_of, 7);
}

/// A random pairing code.
pub fn generate_pin() -> (r: String)
    ensures
        is_pin(r@),
{
    let n: u32 = entropy::random_between(100_000, 999_999);
    proof {
        lemma_six_digits(n as nat);
    }
    text::decimal(n as u64)
}

/// Whether `s` is a nonce: 16 bytes in hexadecimal.
pub open spec fn is_nonce(s: Seq<char>) -> bool {
    exists|b: Seq<u8>| b.len() == 16 && s == #[trigger] encoding::hex_of(b)
}

/// A random nonce.
pub fn generate_nonce() -> (r: String)
    ensures
        is_nonce(r@),
        r@.len() == 32,
{
    let b = entropy::random_bytes(16);
    let r = encoding::hex_encode(b.as_slice());
    assert(r@ == encoding::hex_of(b@));
    r
}

/// When a challenge opened at `now` for `ttl` seconds expires.
pub open spec fn expiry(now: u128, ttl: u64) -> int {
    now + ttl * 1_000_000_000
}

/// What a submission comes to.
pub enum Verdict {
    Accepted,
    Refused(PairFailReason),
}

impl PairingView {
    /// What a submission comes to at time `now`. The challenge must be the open one, of
    /// the same connection, not expired, with the same nonce and the right code.
    pub open spec fn verdict(
        self,
        session_id: Seq<char>,
        challenge_id: Seq<char>,
        nonce: Seq<char>,
        code: Seq<char>,
        now: u128,
    ) -> Verdict {
        match self.challenge {
            None => Verdict::Refused(PairFailReason::Expired),
            Some(c) => if c.challenge_id@ != challenge_id {
                Verdict::Refused(PairFailReason::Expired)
            } else if c.session_id@ != session_id {
                Verdict::Refused(PairFailReason::InvalidCode)
            } else if c.expires_at <= now {
                Verdict::Refused(PairFailReason::Expired)
            } else if c.nonce@ != nonce {
                Verdict::Refused(PairFailReason::InvalidCode)
            } else if c.code@ == code {
                Verdict::Accepted
            } else if c.attempts_left <= 1 {
                Verdict::Refused(PairFailReason::TooManyAttempts)
            } else {
                Verdict::Refused(PairFailReason::InvalidCode)
            },
        }
    }

    /// The open challenge after a submission was judged: an expired one is closed, and a
    /// wrong code for the right challenge takes an attempt, the last of which closes it.
    pub open spec fn challenge_after(
        self,
        session_id: Seq<char>,
        challenge_id: Seq<char>,
        nonce: Seq<char>,
        code: Seq<char>,
        now: u128,
    ) -> Option<PairChallenge> {
        match self.challenge {
            None => None,
            Some(c) => if c.challenge_id@ != challenge_id || c.session_id@ != session_id {
                Some(c)
            } else if c.expires_at <= now {
                None
            } else if c.nonce@ != nonce || c.code@ == code {
                Some(c)
            } else if c.attempts_left <= 1 {
                None
            } else {
                Some(PairChallenge { attempts_left: (c.attempts_left - 1) as u8, ..c })
            },
        }
    }

    /// Whether `r` is what a submission at time `now` comes to before anything is saved,
    /// this becoming `after`.
    pub open spec fn comes_to(
        self,
        session_id: Seq<char>,
        challenge_id: Seq<char>,
        nonce: Seq<char>,
        code: Seq<char>,
        kind: Seq<char>,
        now: u128,
        r: Result<TrustChange, PairingError>,
        after: PairingView,
    ) -> bool {
        &&& after == (PairingView {
            challenge: self.challenge_after(session_id, challenge_id, nonce, code, now),
            ..self
        })
        &&& match self.verdict(session_id, challenge_id, nonce, code, now) {
            Verdict::Refused(reason) => r == Err::<TrustChange, PairingError>(
                PairingError::Invalid(reason),
            ),
            Verdict::Accepted => r matches Ok(TrustChange::Pair(d)) && is_fresh_device(
                d,
                self.challenge->Some_0.device_name@,
                kind,
            ),
        }
    }

    /// What is trusted, and which challenge is open, once `change` took effect.
    pub open spec fn changed(self, change: TrustChange) -> PairingView {
        match change {
            TrustChange::Pair(d) => PairingView {
                challenge: None,
                trusted: self.trusted.insert(d.id@, d),
            },
            TrustChange::Trust(d) => PairingView { trusted: self.trusted.insert(d.id@, d), ..self },
            TrustChange::Remove(id) => PairingView { trusted: self.trusted.remove(id@), ..self },
        }
    }

    /// Whether the device called `id` connects without a code.
    pub open spec fn trusts(self, id: Seq<char>) -> bool {
        self.trusted.contains_key(id) && self.trusted[id].trusted
    }

    /// The code that is shown at time `now`.
    pub open spec fn pin_at(self, now: u128) -> Option<Seq<char>> {
        match self.challenge {
            Some(c) => if c.expires_at > now {
                Some(c.code@)
            } else {
                None
            },
            None => None,
        }
    }
}

/// The key that a device is kept under.
pub open spec fn own_id() -> spec_fn(TrustedDevice) -> Seq<char> {
    |d: TrustedDevice| d.id@
}

/// Whether `store` holds exactly the devices of `trusted`, each once.
pub open spec fn stores(store: Seq<TrustedDevice>, trusted: Map<Seq<char>, TrustedDevice>) -> bool {
    table::lists_all(store, own_id(), trusted)
}

/// The devices under their identifiers; of two called alike, the later.
pub open spec fn by_id(l: Seq<TrustedDevice>) -> Map<Seq<char>, TrustedDevice>
    decreases l.len(),
{
    if l.len() == 0 {
        Map::empty()
    } else {
        by_id(l.drop_last()).insert(l.last().id@, l.last())
    }
}

/// A new device, trusted as of `now`.
pub open spec fn is_new_device(d: TrustedDevice, name: Seq<char>, kind: Seq<char>, now: i64) -> bool {
    d.name@ == name && d.kind@ == kind && d.last_seen == now && d.paired_at == now && d.trusted
}

/// A new device with a random identifier, trusted as of a time of the wall clock.
pub open spec fn is_fresh_device(d: TrustedDevice, name: Seq<char>, kind: Seq<char>) -> bool {
    &&& entropy::is_uuid(d.id@)
    &&& 0 <= d.paired_at <= clock::LAST_SECOND
    &&& is_new_device(d, name, kind, d.paired_at)
}

impl PairingManager {
    /// Every device is kept under its own identifier.
    pub closed spec fn wf(&self) -> bool {
        &&& self.trusted.wf()
        &&& forall|k: Seq<char>| #[trigger]
            self.trusted@.contains_key(k) ==> self.trusted@[k].id@ == k
    }

    /// No challenge and no device.
    pub fn new() -> (r: Self)
        ensures
            r.wf(),
            r@.challenge is None,
            r@.trusted == Map::<Seq<char>, TrustedDevice>::empty(),
    {
        PairingManager { challenge: None, trusted: Table::new(), started: clock::start_clock() }
    }

    /// The devices of `store`, and no challenge.
    pub fn with_store(store: TrustedStore) -> (r: Self)
        ensures
            r.wf(),
            r@.challenge is None,
            r@.trusted == by_id(store.devices@),
    {
        let mut trusted: Table<TrustedDevice> = Table::new();
        let mut i: usize = 0;
        while i < store.devices.len()
            invariant
                i <= store.devices@.len(),
                trusted.wf(),
                trusted@ == by_id(store.devices@.take(i as int)),
                forall|k: Seq<char>| #[trigger]
                    trusted@.contains_key(k) ==> trusted@[k].id@ == k,
            decreases store.devices@.len() - i,
        {
            let d = store.devices[i].clone();
            assert(store.devices@.take(i + 1).drop_last() =~= store.devices@.take(i as int));
            trusted.insert(d.id.to_string(), d);
            i = i + 1;
        }
        assert(store.devices@.take(i as int) =~= store.devices@);
        PairingManager { challenge: None, trusted, started: clock::start_clock() }
    }

    /// Opens a challenge for connection `session_id` in place of the one that was open.
    /// It is good for `ttl` seconds.
    pub fn start_challenge(&mut self, session_id: &str, device_name: &str, ttl: u64) -> (r:
        PairChallenge)
        requires
            old(self).wf(),
        ensures
            final(self).wf(),
            final(self)@ == (PairingView { challenge: Some(r), ..old(self)@ }),
            is_pin(r.code@),
            is_nonce(r.nonce@),
            entropy::is_uuid(r.challenge_id@),
            r.attempts_left == MAX_ATTEMPTS,
            r.session_id@ == session_id@,
            r.device_name@ == device_name@,
            exists|now: u128| r.expires_at == #[trigger] expiry(now, ttl),
    {
        let code = generate_pin();
        let nonce = generate_nonce();
        let challenge_id = entropy::new_uuid();
        let now: u128 = clock::nanos_since(&self.started);
        assert(expiry(now, ttl) == expiry(now, ttl));
        self.start_challenge_at(session_id, device_name, ttl, challenge_id, code, nonce, now)
    }

    /// Opens a challenge with the given identifier, code and nonce at time `now`.
    pub fn start_challenge_at(
        &mut self,
        session_id: &str,
        device_name: &str,
        ttl: u64,
        challenge_id: String,
        code: String,
        nonce: String,
        now: u128,
    ) -> (r: PairChallenge)
        requires
            old(self).wf(),
            now <= 18_446_744_073_709_551_615_999_999_999,
        ensures
            final(self).wf(),
            final(self)@ == (PairingView { challenge: Some(r), ..old(self)@ }),
            r.challenge_id@ == challenge_id@,
            r.code@ == code@,
            r.nonce@ == nonce@,
            r.expires_at == expiry(now, ttl),
            r.attempts_left == MAX_ATTEMPTS,
            r.session_id@ == session_id@,
            r.device_name@ == device_name@,
    {
        let span: u128 = ttl as u128 * 1_000_000_000;
        let challenge = PairChallenge {
            challenge_id,
            code,
            nonce,
            expires_at: now + span,
            attempts_left: MAX_ATTEMPTS,
            session_id: session_id.to_owned(),
            device_name: device_name.to_owned(),
        };
        self.challenge = Some(challenge.clone());
        challenge
    }

    /// Judges a submission. Where it is right, gives back the name of the device that
    /// asked; the challenge then stays open until the new trust is committed.
    pub fn judge_at(
        &mut self,
        session_id: &str,
        challenge_id: &str,
        nonce: &str,
        code: &str,
        now: u128,
    ) -> (r: Result<String, PairFailReason>)
        requires
            old(self).wf(),
        ensures
            final(self).wf(),
            match r {
                Ok(name) => {
                    &&& old(self)@.verdict(session_id@, challenge_id@, nonce@, code@, now)
                        == Verdict::Accepted
                    &&& old(self)@.challenge is Some
                    &&& name@ == old(self)@.challenge->Some_0.device_name@
                },
                Err(reason) => old(self)@.verdict(session_id@, challenge_id@, nonce@, code@, now)
                    == Verdict::Refused(reason),
            },
            final(self)@ == (PairingView {
                challenge: old(self)@.challenge_after(
                    session_id@,
                    challenge_id@,
                    nonce@,
                    code@,
                    now,
                ),
                ..old(self)@
            }),
    {
        let challenge = match &self.challenge {
            None => {
                return Err(PairFailReason::Expired);
            },
            Some(c) => c.clone(),
        };
        if !text::same(challenge.challenge_id.as_str(), challenge_id) {
            return Err(PairFailReason::Expired);
        }
        if !text::same(challenge.session_id.as_str(), session_id) {
            return Err(PairFailReason::InvalidCode);
        }
        if challenge.expires_at <= now {
            self.challenge = None;
            return Err(PairFailReason::Expired);
        }
        if !text::same(challenge.nonce.as_str(), nonce) {
            return Err(PairFailReason::InvalidCode);
        }
        if !text::same(challenge.code.as_str(), code) {
            if challenge.attempts_left <= 1 {
                self.challenge = None;
                return Err(PairFailReason::TooManyAttempts);
            }
            self.challenge =
            Some(PairChallenge { attempts_left: challenge.attempts_left - 1, ..challenge });
            return Err(PairFailReason::InvalidCode);
        }
        Ok(challenge.device_name)
    }

    /// The time of the manager's steady clock.
    pub(crate) fn now(&self) -> (r: u128) {
        clock::nanos_since(&self.started)
    }

    /// Judges a submission now. Where it is right, gives back the change of trust to
    /// save and commit: a device with a random identifier.
    pub fn begin_submit(
        &mut self,
        session_id: &str,
        challenge_id: &str,
        nonce: &str,
        code: &str,
        kind: &str,
    ) -> (r: Result<TrustChange, PairingError>)
        requires
            old(self).wf(),
        ensures
            final(self).wf(),
            exists|now: u128| #[trigger]
                old(self)@.comes_to(
                    session_id@,
                    challenge_id@,
                    nonce@,
                    code@,
                    kind@,
                    now,
                    r,
                    final(self)@,
                ),
    {
        let now: u128 = self.now();
        self.begin_submit_at(session_id, challenge_id, nonce, code, kind, now)
    }

    /// Judges a submission at `now`. Where it is right, gives back the change of trust to
    /// save and commit: a device with a random identifier.
    pub fn begin_submit_at(
        &mut self,
        session_id: &str,
        challenge_id: &str,
        nonce: &str,
        code: &str,
        kind: &str,
        now: u128,
    ) -> (r: Result<TrustChange, PairingError>)
        requires
            old(self).wf(),
        ensures
            final(self).wf(),
            old(self)@.comes_to(
                session_id@,
                challenge_id@,
                nonce@,
                code@,
                kind@,
                now,
                r,
                final(self)@,
            ),
    {
        match self.judge_at(session_id, challenge_id, nonce, code, now) {
            Err(reason) => Err(PairingError::Invalid(reason)),
            Ok(name) => Ok(TrustChange::Pair(new_device(name.as_str(), kind))),
        }
    }

    /// What to save for `change` to take effect.
    pub fn store_after(&self, change: &TrustChange) -> (r: TrustedStore)
        requires
            self.wf(),
        ensures
            stores(r.devices@, self@.changed(*change).trusted),
    {
        let mut next = self.copy_trusted();
        match change {
            TrustChange::Pair(d) => next.insert(d.id.to_string(), d.clone()),
            TrustChange::Trust(d) => next.insert(d.id.to_string(), d.clone()),
            TrustChange::Remove(id) => {
                let _ = next.remove(id.as_str());
            },
        }
        assert(next@ == self@.changed(*change).trusted);
        let devices = devices_of(&next);
        TrustedStore { devices }
    }

    fn copy_trusted(&self) -> (r: Table<TrustedDevice>)
        requires
            self.wf(),
        ensures
            r.wf(),
            r@ == self@.trusted,
    {
        let n: usize = self.trusted.len();
        let mut r: Table<TrustedDevice> = Table::new();
        let mut i: usize = 0;
        assert(self.trusted.list().take(0) =~= Seq::<(Seq<char>, TrustedDevice)>::empty());
        while i < n
            invariant
                i <= n,
                n == self.trusted.list().len(),
                self.trusted.wf(),
                r.wf(),
                r@ == table::map_of(self.trusted.list().take(i as int)),
            decreases n - i,
        {
            let ghost l = self.trusted.list();
            assert(l.take(i + 1).drop_last() =~= l.take(i as int));
            assert(l.take(i + 1).last() == l[i as int]);
            r.insert(self.trusted.key_at(i).clone(), self.trusted.value_at(i).clone());
            i = i + 1;
        }
        assert(self.trusted.list().take(n as int) =~= self.trusted.list());
        r
    }

    /// Makes `change` take effect where it was saved. Where saving failed, nothing
    /// changes: no device is added or taken out, and an answered challenge stays open.
    pub fn commit(&mut self, change: TrustChange, saved: Result<(), Error>) -> (r: Result<(), Error>)
        requires
            old(self).wf(),
        ensures
            final(self).wf(),
            r == saved,
            final(self)@ == if saved is Ok {
                old(self)@.changed(change)
            } else {
                old(self)@
            },
    {
        if saved.is_ok() {
            match change {
                TrustChange::Pair(d) => {
                    self.trusted.insert(d.id.to_string(), d);
                    self.challenge = None;
                },
                TrustChange::Trust(d) => self.trusted.insert(d.id.to_string(), d),
                TrustChange::Remove(id) => {
                    let _ = self.trusted.remove(id.as_str());
                },
            }
        }
        saved
    }

    /// Judges a submission and, where it is right, trusts the device at once, without a
    /// store. `kind` is what sort of device it said it is.
    pub fn submit(
        &mut self,
        session_id: &str,
        challenge_id: &str,
        nonce: &str,
        code: &str,
        kind: &str,
    ) -> (r: Result<DeviceId, PairingError>)
        requires
            old(self).wf(),
        ensures
            final(self).wf(),
            exists|now: u128|
                #![trigger old(self)@.verdict(session_id@, challenge_id@, nonce@, code@, now)]
                match r {
                    Err(PairingError::Invalid(reason)) => {
                        &&& old(self)@.verdict(session_id@, challenge_id@, nonce@, code@, now)
                            == Verdict::Refused(reason)
                        &&& final(self)@ == (PairingView {
                            challenge: old(self)@.challenge_after(
                                session_id@,
                                challenge_id@,
                                nonce@,
                                code@,
                                now,
                            ),
                            ..old(self)@
                        })
                    },
                    Err(_) => false,
                    Ok(id) => {
                        &&& old(self)@.verdict(session_id@, challenge_id@, nonce@, code@, now)
                            == Verdict::Accepted
                        &&& final(self)@.challenge is None
                        &&& final(self)@.trusted.contains_key(id@)
                        &&& final(self)@.trusted == old(self)@.trusted.insert(
                            id@,
                            final(self)@.trusted[id@],
                        )
                    },
                },
            r matches Ok(id) ==> {
                let d = final(self)@.trusted[id@];
                &&& d.id@ == id@
                &&& is_fresh_device(d, old(self)@.challenge->Some_0.device_name@, kind@)
                &&& final(self)@.trusts(id@)
            },
    {
        let ghost before = self@;
        match self.begin_submit(session_id, challenge_id, nonce, code, kind) {
            Err(e) => Err(e),
            Ok(change) => {
                let ghost now = choose|now: u128| #[trigger]
                    before.comes_to(
                        session_id@,
                        challenge_id@,
                        nonce@,
                        code@,
                        kind@,
                        now,
                        Ok(change),
                        self@,
                    );
                let id = match &change {
                    TrustChange::Pair(d) => d.id.clone(),
                    TrustChange::Trust(d) => d.id.clone(),
                    TrustChange::Remove(id) => id.clone(),
                };
                let _ = self.commit(change, Ok(()));
                assert(before.verdict(session_id@, challenge_id@, nonce@, code@, now)
                    == Verdict::Accepted);
                Ok(id)
            },
        }
    }

    /// Closes the open challenge if it is that of connection `session_id`.
    pub fn cancel_session(&mut self, session_id: &str)
        requires
            old(self).wf(),
        ensures
            final(self).wf(),
            final(self)@ == (PairingView {
                challenge: match old(self)@.challenge {
                    Some(c) => if c.session_id@ == session_id@ {
                        None
                    } else {
                        Some(c)
                    },
                    None => None,
                },
                ..old(self)@
            }),
    {
        let hit = match &self.challenge {
            Some(c) => text::same(c.session_id.as_str(), session_id),
            None => false,
        };
        if hit {
            self.challenge = None;
        }
    }

    /// A device to trust without pairing, with a random identifier: the change to save
    /// and commit.
    pub fn begin_trust(name: &str, kind: &str) -> (r: TrustChange)
        ensures
            r matches TrustChange::Trust(d) && is_fresh_device(d, name@, kind@),
    {
        TrustChange::Trust(new_device(name, kind))
    }

    /// Trusts a device at once, without pairing and without a store.
    pub fn trust(&mut self, name: &str, kind: &str) -> (r: DeviceId)
        requires
            old(self).wf(),
        ensures
            final(self).wf(),
            final(self)@.challenge == old(self)@.challenge,
            final(self)@.trusted == old(self)@.trusted.insert(r@, final(self)@.trusted[r@]),
            final(self)@.trusted.contains_key(r@),
            final(self)@.trusted[r@].id@ == r@,
            is_fresh_device(final(self)@.trusted[r@], name@, kind@),
            final(self)@.trusts(r@),
    {
        let d = new_device(name, kind);
        let id = d.id.clone();
        let _ = self.commit(TrustChange::Trust(d), Ok(()));
        id
    }

    /// Whether the device connects without a code.
    pub fn is_trusted(&self, id: &DeviceId) -> (r: bool)
        requires
            self.wf(),
        ensures
            r == self@.trusts(id@),
    {
        match self.trusted.get(id.as_str()) {
            Some(d) => d.trusted,
            None => false,
        }
    }

    /// The name that a known device has.
    pub fn device_name(&self, id: &DeviceId) -> (r: Option<&str>)
        requires
            self.wf(),
        ensures
            r is Some == self@.trusted.contains_key(id@),
            r matches Some(name) ==> name@ == self@.trusted[id@].name@,
    {
        match self.trusted.get(id.as_str()) {
            Some(d) => Some(d.name.as_str()),
            None => None,
        }
    }

    /// Notes that a known device was seen now.
    pub fn mark_seen(&mut self, id: &DeviceId)
        requires
            old(self).wf(),
        ensures
            final(self).wf(),
            exists|now: i64|
                0 <= now <= clock::LAST_SECOND && final(self)@ == #[trigger] marked(
                    old(self)@,
                    id@,
                    now,
                ),
    {
        let now: i64 = clock::unix_timestamp();
        let ghost before = self@;
        self.mark_seen_at(id, now);
        assert(self@ == marked(before, id@, now));
    }

    /// Notes that a known device was seen at `now`.
    pub fn mark_seen_at(&mut self, id: &DeviceId, now: i64)
        requires
            old(self).wf(),
        ensures
            final(self).wf(),
            final(self)@ == marked(old(self)@, id@, now),
    {
        let known = match self.trusted.get(id.as_str()) {
            Some(d) => Some(d.clone()),
            None => None,
        };
        match known {
            Some(d) => self.trusted.insert(id.to_string(), TrustedDevice { last_seen: now, ..d }),
            None => {},
        }
    }

    /// The known devices, those seen last first.
    pub fn trusted_devices(&self) -> (r: Vec<&TrustedDevice>)
        requires
            self.wf(),
        ensures
            stores(derefs(r@), self@.trusted),
            forall|i: int, j: int|
                0 <= i < j < r@.len() ==> (#[trigger] r@[i]).last_seen >= (
                #[trigger] r@[j]).last_seen,
    {
        let n: usize = self.trusted.len();
        let mut l: Vec<&TrustedDevice> = Vec::new();
        let mut i: usize = 0;
        while i < n
            invariant
                i <= n,
                n == self.trusted.list().len(),
                l@.len() == i,
                forall|k: int| 0 <= k < i ==> *(#[trigger] l@[k]) == self.trusted.list()[k].1,
            decreases n - i,
        {
            l.push(self.trusted.value_at(i));
            i = i + 1;
        }
        let r = latest_first(&l);
        proof {
            table::lemma_entries_list_all(self.trusted.list(), derefs(l@), own_id());
            let out = derefs(r@);
            sort::lemma_sorted_lists_all(derefs(l@), out, seen_later(), own_id(), self@.trusted);
            assert forall|i: int, j: int| 0 <= i < j < r@.len() implies (
            #[trigger] r@[i]).last_seen >= (#[trigger] r@[j]).last_seen by {
                assert(!seen_later()(out[j], out[i]));
            }
        }
        r
    }

    /// Forgets a device at once, without a store; whether it was known.
    pub fn untrust(&mut self, id: &DeviceId) -> (r: bool)
        requires
            old(self).wf(),
        ensures
            final(self).wf(),
            r == old(self)@.trusted.contains_key(id@),
            final(self)@ == (PairingView {
                trusted: old(self)@.trusted.remove(id@),
                ..old(self)@
            }),
            !final(self)@.trusts(id@),
    {
        self.trusted.remove(id.as_str()).is_some()
    }

    /// Whether a device is known, trusted or not.
    pub fn knows(&self, id: &DeviceId) -> (r: bool)
        requires
            self.wf(),
        ensures
            r == self@.trusted.contains_key(id@),
    {
        self.trusted.contains_key(id.as_str())
    }

    /// The open challenge, expired or not.
    pub fn challenge(&self) -> (r: Option<&PairChallenge>)
        ensures
            r is Some == self@.challenge is Some,
            r matches Some(c) ==> self@.challenge == Some(*c),
    {
        self.challenge.as_ref()
    }

    /// The code of the open challenge, while it is good.
    pub fn active_pin(&self) -> (r: Option<String>)
        requires
            self.wf(),
        ensures
            exists|now: u128|
                crate::protocol::opt_view(r) == #[trigger] self@.pin_at(now),
    {
        let now: u128 = clock::nanos_since(&self.started);
        let r = self.active_pin_at(now);
        assert(crate::protocol::opt_view(r) == self@.pin_at(now));
        r
    }

    /// The code of the open challenge, where it is good at `now`.
    pub fn active_pin_at(&self, now: u128) -> (r: Option<String>)
        ensures
            crate::protocol::opt_view(r) == self@.pin_at(now),
    {
        match &self.challenge {
            Some(c) => if c.expires_at > now {
                Some(c.code.clone())
            } else {
                None
            },
            None => None,
        }
    }
}

/// The devices once the one called `id` was seen at `now`.
pub open spec fn marked(p: PairingView, id: Seq<char>, now: i64) -> PairingView {
    if p.trusted.contains_key(id) {
        PairingView {
            trusted: p.trusted.insert(id, TrustedDevice { last_seen: now, ..p.trusted[id] }),
            ..p
        }
    } else {
        p
    }
}

/// A new device with a random identifier, trusted as of now.
fn new_device(name: &str, kind: &str) -> (d: TrustedDevice)
    ensures
        is_fresh_device(d, name@, kind@),
{
    let now: i64 = clock::unix_timestamp();
    TrustedDevice {
        id: DeviceId::new(),
        name: name.to_owned(),
        kind: kind.to_owned(),
        last_seen: now,
        paired_at: now,
        trusted: true,
    }
}

/// The devices of a table, in order.
fn devices_of(t: &Table<TrustedDevice>) -> (r: Vec<TrustedDevice>)
    requires
        t.wf(),
        forall|k: Seq<char>| #[trigger] t@.contains_key(k) ==> t@[k].id@ == k,
    ensures
        stores(r@, t@),
{
    let n: usize = t.len();
    let mut r: Vec<TrustedDevice> = Vec::new();
    let mut i: usize = 0;
    while i < n
        invariant
            i <= n,
            n == t.list().len(),
            r@.len() == i,
            forall|k: int| 0 <= k < i ==> #[trigger] r@[k] == t.list()[k].1,
        decreases n - i,
    {
        r.push(t.value_at(i).clone());
        i = i + 1;
    }
    proof {
        table::lemma_entries_list_all(t.list(), r@, own_id());
    }
    r
}

/// What is saved is what is read back: the devices of a store, put under their
/// identifiers, are the devices that it was made of.
pub proof fn law_store_round_trip(store: Seq<TrustedDevice>, trusted: Map<Seq<char>, TrustedDevice>)
    requires
        stores(store, trusted),
        forall|k: Seq<char>| #[trigger] trusted.contains_key(k) ==> trusted[k].id@ == k,
    ensures
        by_id(store) == trusted,
{
    lemma_by_id(store);
    assert forall|k: Seq<char>| #[trigger] by_id(store).contains_key(k) <==> trusted.contains_key(
        k,
    ) by {
        if trusted.contains_key(k) {
            let i = choose|i: int| 0 <= i < store.len() && #[trigger] store[i] == trusted[k];
            assert(store[i].id@ == k);
        }
    }
    assert forall|k: Seq<char>| by_id(store).contains_key(k) implies by_id(store)[k]
        == trusted[k] by {
        let i = choose|i: int| 0 <= i < store.len() && (#[trigger] store[i]).id@ == k;
        assert(by_id(store)[store[i].id@] == store[i]);
    }
    assert(by_id(store) =~= trusted);
}

proof fn lemma_by_id(l: Seq<TrustedDevice>)
    requires
        forall|i: int, j: int|
            0 <= i < j < l.len() ==> (#[trigger] l[i]).id@ != (#[trigger] l[j]).id@,
    ensures
        forall|k: Seq<char>| #[trigger]
            by_id(l).contains_key(k) <==> exists|i: int|
                0 <= i < l.len() && (#[trigger] l[i]).id@ == k,
        forall|i: int| 0 <= i < l.len() ==> by_id(l)[(#[trigger] l[i]).id@] == l[i],
    decreases l.len(),
{
    if l.len() > 0 {
        let d = l.drop_last();
        assert forall|i: int, j: int| 0 <= i < j < d.len() implies (#[trigger] d[i]).id@ != (
        #[trigger] d[j]).id@ by {
            assert(l[i].id@ != l[j].id@);
        }
        lemma_by_id(d);
        assert forall|k: Seq<char>| #[trigger] by_id(l).contains_key(k) <==> exists|i: int|
            0 <= i < l.len() && (#[trigger] l[i]).id@ == k by {
            if by_id(l).contains_key(k) {
                if k == l.last().id@ {
                    assert(l[l.len() - 1].id@ == k);
                } else {
                    assert(by_id(d).contains_key(k));
                    let i = choose|i: int| 0 <= i < d.len() && (#[trigger] d[i]).id@ == k;
                    assert(l[i].id@ == k);
                }
            }
            if exists|i: int| 0 <= i < l.len() && (#[trigger] l[i]).id@ == k {
                let i = choose|i: int| 0 <= i < l.len() && (#[trigger] l[i]).id@ == k;
                if i < d.len() {
                    assert(d[i].id@ == k);
                    assert(by_id(d).contains_key(k));
                }
            }
        }
        assert forall|i: int| 0 <= i < l.len() implies by_id(l)[(#[trigger] l[i]).id@] == l[i] by {
            if i < d.len() {
                assert(d[i] == l[i]);
                assert(l[i].id@ != l[l.len() - 1].id@);
            }
        }
    }
}

/// A newer challenge ends the one before it: whatever is submitted for the earlier is
/// refused as expired, and takes no attempt.
pub proof fn law_newer_challenge_ends_the_earlier(
    p: PairingView,
    newer: PairChallenge,
    session_id: Seq<char>,
    earlier_id: Seq<char>,
    nonce: Seq<char>,
    code: Seq<char>,
    now: u128,
)
    requires
        newer.challenge_id@ != earlier_id,
    ensures
        ({
            let q = PairingView { challenge: Some(newer), ..p };
            &&& q.verdict(session_id, earlier_id, nonce, code, now) == Verdict::Refused(
                PairFailReason::Expired,
            )
            &&& q.challenge_after(session_id, earlier_id, nonce, code, now) == Some(newer)
        }),
{
}

/// Only the connection that the challenge was opened for can answer it: another one is
/// refused whatever it sends, and takes no attempt.
pub proof fn law_challenge_belongs_to_its_session(
    p: PairingView,
    c: PairChallenge,
    other: Seq<char>,
    challenge_id: Seq<char>,
    nonce: Seq<char>,
    code: Seq<char>,
    now: u128,
)
    requires
        p.challenge == Some(c),
        c.session_id@ != other,
    ensures
        p.verdict(other, challenge_id, nonce, code, now) is Refused,
        p.challenge_after(other, challenge_id, nonce, code, now) == Some(c),
{
}

/// A submission is accepted exactly where everything about it is right.
pub proof fn law_acceptance(
    p: PairingView,
    session_id: Seq<char>,
    challenge_id: Seq<char>,
    nonce: Seq<char>,
    code: Seq<char>,
    now: u128,
)
    ensures
        p.verdict(session_id, challenge_id, nonce, code, now) is Accepted <==> (p.challenge matches Some(
            c,
        ) && c.challenge_id@ == challenge_id && c.session_id@ == session_id && c.nonce@ == nonce
            && c.code@ == code && now < c.expires_at),
{
}

/// The challenge after `n` wrong codes were submitted for it.
pub open spec fn after_wrong_codes(
    p: PairingView,
    c: PairChallenge,
    codes: Seq<Seq<char>>,
    now: u128,
) -> PairingView
    decreases codes.len(),
{
    if codes.len() == 0 {
        p
    } else {
        let q = after_wrong_codes(p, c, codes.drop_last(), now);
        PairingView {
            challenge: q.challenge_after(
                c.session_id@,
                c.challenge_id@,
                c.nonce@,
                codes.last(),
                now,
            ),
            ..q
        }
    }
}

/// A challenge takes `MAX_ATTEMPTS` wrong codes and no more: with each it has one attempt
/// less, and after the last it is closed, so that even the right code is refused.
pub proof fn law_attempts_run_out(
    p: PairingView,
    c: PairChallenge,
    codes: Seq<Seq<char>>,
    now: u128,
)
    requires
        p.challenge == Some(c),
        c.attempts_left == MAX_ATTEMPTS,
        now < c.expires_at,
        codes.len() <= MAX_ATTEMPTS,
        forall|i: int| 0 <= i < codes.len() ==> #[trigger] codes[i] != c.code@,
    ensures
        after_wrong_codes(p, c, codes, now).challenge == if codes.len() < MAX_ATTEMPTS {
            Some(PairChallenge { attempts_left: (MAX_ATTEMPTS - codes.len()) as u8, ..c })
        } else {
            None
        },
        codes.len() == MAX_ATTEMPTS ==> after_wrong_codes(p, c, codes, now).verdict(
            c.session_id@,
            c.challenge_id@,
            c.nonce@,
            c.code@,
            now,
        ) is Refused,
    decreases codes.len(),
{
    if codes.len() > 0 {
        assert forall|i: int| 0 <= i < codes.drop_last().len() implies #[trigger] codes.drop_last()[i]
            != c.code@ by {
            assert(codes[i] != c.code@);
        }
        law_attempts_run_out(p, c, codes.drop_last(), now);
        assert(codes.last() != c.code@);
    }
}

/// A device is trusted after pairing, and not after it was taken out; the others are as
/// they were.
pub proof fn law_trust_follows_pairing(p: PairingView, d: TrustedDevice, other: Seq<char>)
    requires
        d.trusted,
        other != d.id@,
    ensures
        p.changed(TrustChange::Pair(d)).trusts(d.id@),
        p.changed(TrustChange::Pair(d)).trusts(other) == p.trusts(other),
        !p.changed(TrustChange::Remove(d.id)).trusts(d.id@),
        p.changed(TrustChange::Remove(d.id)).trusts(other) == p.trusts(other),
{
}

/// A right answer makes the device known under the name that it asked with and the sort it
/// said it is, and trusted; the code is then gone, and the same answer is refused as
/// expired.
pub proof fn law_answer_is_good_once(
    p: PairingView,
    session_id: Seq<char>,
    challenge_id: Seq<char>,
    nonce: Seq<char>,
    code: Seq<char>,
    now: u128,
    later: u128,
    d: TrustedDevice,
    kind: Seq<char>,
    t: i64,
)
    requires
        p.verdict(session_id, challenge_id, nonce, code, now) is Accepted,
        is_new_device(d, p.challenge->Some_0.device_name@, kind, t),
    ensures
        ({
            let q = p.changed(TrustChange::Pair(d));
            &&& q.trusts(d.id@)
            &&& q.trusted[d.id@].name@ == p.challenge->Some_0.device_name@
            &&& q.trusted[d.id@].kind@ == kind
            &&& q.pin_at(later) is None
            &&& q.verdict(session_id, challenge_id, nonce, code, later) == Verdict::Refused(
                PairFailReason::Expired,
            )
        }),
{
}

/// An answer to another challenge, from another connection or with another nonce is
/// refused, trusts nobody and costs no attempt while the challenge is good.
pub proof fn law_stray_answer_costs_nothing(
    p: PairingView,
    c: PairChallenge,
    session_id: Seq<char>,
    challenge_id: Seq<char>,
    nonce: Seq<char>,
    code: Seq<char>,
    now: u128,
)
    requires
        p.challenge == Some(c),
        now < c.expires_at,
        c.challenge_id@ != challenge_id || c.session_id@ != session_id || c.nonce@ != nonce,
    ensures
        p.verdict(session_id, challenge_id, nonce, code, now) is Refused,
        p.challenge_after(session_id, challenge_id, nonce, code, now) == Some(c),
{
}

proof fn lemma_without_filters(
    l: Seq<TrustedDevice>,
    id: Seq<char>,
    p: spec_fn(TrustedDevice) -> bool,
)
    requires
        forall|d: TrustedDevice| #[trigger] p(d) == (d.id@ != id),
    ensures
        without(l, id) == l.filter(p),
    decreases l.len(),
{
    reveal(Seq::filter);
    if l.len() > 0 {
        lemma_without_filters(l.drop_last(), id, p);
    }
}

/// Taking out a device keeps every other device, in its place among the others, and says
/// whether there was one to take out.
pub proof fn law_removal_keeps_the_others(s: &mut TrustedStore, id: &str, r: bool)
    requires
        call_ensures(TrustedStore::remove, (s, id), r),
    ensures
        final(s).devices@ == old(s).devices@.filter(|d: TrustedDevice| d.id.0@ != id@),
        r <==> exists|i: int|
            0 <= i < old(s).devices@.len() && (#[trigger] old(s).devices@[i]).id.0@ == id@,
        forall|i: int|
            0 <= i < old(s).devices@.len() && (#[trigger] old(s).devices@[i]).id.0@ != id@
                ==> final(s).devices@.contains(old(s).devices@[i]),
        forall|i: int|
            0 <= i < final(s).devices@.len() ==> (#[trigger] final(s).devices@[i]).id.0@ != id@
                && old(s).devices@.contains(final(s).devices@[i]),
{
    let l = old(s).devices@;
    let p = |d: TrustedDevice| d.id.0@ != id@;
    lemma_without_filters(l, id@, p);
    let f = l.filter(p);
    assert forall|i: int| 0 <= i < l.len() && (#[trigger] l[i]).id.0@ != id@ implies f.contains(
        l[i],
    ) by {
        l.lemma_filter_contains(p, i);
    }
    lemma_filter_members(l, p);
    assert forall|i: int| 0 <= i < f.len() implies (#[trigger] f[i]).id.0@ != id@ by {
        l.lemma_filter_pred(p, i);
    }
}

proof fn lemma_filter_members(l: Seq<TrustedDevice>, p: spec_fn(TrustedDevice) -> bool)
    ensures
        forall|i: int| 0 <= i < l.filter(p).len() ==> l.contains(#[trigger] l.filter(p)[i]),
    decreases l.len(),
{
    reveal(Seq::filter);
    if l.len() > 0 {
        let d = l.drop_last();
        lemma_filter_members(d, p);
        assert forall|i: int| 0 <= i < l.filter(p).len() implies l.contains(
            #[trigger] l.filter(p)[i],
        ) by {
            if i < d.filter(p).len() {
                assert(l.filter(p)[i] == d.filter(p)[i]);
                assert(d.contains(d.filter(p)[i]));
                let k = choose|k: int| 0 <= k < d.len() && d[k] == d.filter(p)[i];
                assert(l[k] == l.filter(p)[i]);
            } else {
                assert(l[l.len() - 1] == l.filter(p)[i]);
            }
        }
    }
}

/// A submission is right exactly where a challenge is open that has its identifier, its
/// connection, its nonce and its code and has not expired. Judging trusts nobody.
pub proof fn law_judgement(
    p: &mut PairingManager,
    session_id: &str,
    challenge_id: &str,
    nonce: &str,
    code: &str,
    now: u128,
    r: Result<String, PairFailReason>,
)
    requires
        call_ensures(PairingManager::judge_at, (p, session_id, challenge_id, nonce, code, now), r),
    ensures
        r is Ok <==> (old(p)@.challenge matches Some(c) && c.challenge_id@ == challenge_id@
            && c.session_id@ == session_id@ && c.nonce@ == nonce@ && c.code@ == code@ && now
            < c.expires_at),
        r is Ok ==> r->Ok_0@ == old(p)@.challenge->Some_0.device_name@ && final(p)@ == old(p)@,
        final(p)@.trusted == old(p)@.trusted,
        old(p)@.challenge is None ==> r == Err::<String, PairFailReason>(PairFailReason::Expired),
        old(p)@.challenge matches Some(c) ==> {
            let ours = c.challenge_id@ == challenge_id@ && c.session_id@ == session_id@;
            &&& c.challenge_id@ != challenge_id@ ==> r == Err::<String, PairFailReason>(
                PairFailReason::Expired,
            )
            &&& c.challenge_id@ == challenge_id@ && c.session_id@ != session_id@ ==> r == Err::<
                String,
                PairFailReason,
            >(PairFailReason::InvalidCode)
            &&& ours && c.expires_at <= now ==> r == Err::<String, PairFailReason>(
                PairFailReason::Expired,
            ) && final(p)@.challenge is None
            &&& ours && now < c.expires_at && c.nonce@ != nonce@ ==> r == Err::<
                String,
                PairFailReason,
            >(PairFailReason::InvalidCode) && final(p)@.challenge == Some(c)
            &&& !ours ==> final(p)@.challenge == Some(c)
            &&& ours && now < c.expires_at && c.nonce@ == nonce@ && c.code@ != code@ ==> {
                &&& c.attempts_left > 1 ==> r == Err::<String, PairFailReason>(
                    PairFailReason::InvalidCode,
                ) && final(p)@.challenge is Some && final(p)@.challenge->Some_0.attempts_left + 1
                    == c.attempts_left && final(p)@.challenge->Some_0.code == c.code
                    && final(p)@.challenge->Some_0.challenge_id == c.challenge_id
                    && final(p)@.challenge->Some_0.nonce == c.nonce
                    && final(p)@.challenge->Some_0.session_id == c.session_id
                    && final(p)@.challenge->Some_0.expires_at == c.expires_at
                    && final(p)@.challenge->Some_0.device_name == c.device_name
                &&& c.attempts_left <= 1 ==> r == Err::<String, PairFailReason>(
                    PairFailReason::TooManyAttempts,
                ) && final(p)@.challenge is None
            }
        },
{
}

/// A right submission gives a device to trust: under the name that asked and the sort that
/// was said, seen and paired at one time, trusted; nothing takes effect yet. A wrong one
/// gives the reason that judging gives.
pub proof fn law_submission(
    p: &mut PairingManager,
    session_id: &str,
    challenge_id: &str,
    nonce: &str,
    code: &str,
    kind: &str,
    now: u128,
    r: Result<TrustChange, PairingError>,
)
    requires
        call_ensures(
            PairingManager::begin_submit_at,
            (p, session_id, challenge_id, nonce, code, kind, now),
            r,
        ),
    ensures
        r is Ok <==> (old(p)@.challenge matches Some(c) && c.challenge_id@ == challenge_id@
            && c.session_id@ == session_id@ && c.nonce@ == nonce@ && c.code@ == code@ && now
            < c.expires_at),
        final(p)@.trusted == old(p)@.trusted,
        r is Ok ==> final(p)@ == old(p)@ && r->Ok_0 is Pair && {
            let d = r->Ok_0->Pair_0;
            &&& d.name@ == old(p)@.challenge->Some_0.device_name@
            &&& d.kind@ == kind@
            &&& d.trusted
            &&& d.last_seen == d.paired_at
            &&& d.paired_at >= 0
            &&& d.id.0@.len() == 36
        },
        r is Err ==> r->Err_0 is Invalid,
{
}

/// What is saved takes effect: a device that is paired or trusted is then known as it was
/// given, one that is removed is not, and every other device stays as it was. Pairing
/// closes the challenge; nothing else touches it. What could not be saved changes nothing.
pub proof fn law_commit(
    p: &mut PairingManager,
    change: TrustChange,
    saved: Result<(), Error>,
    r: Result<(), Error>,
    other: Seq<char>,
)
    requires
        call_ensures(PairingManager::commit, (p, change, saved), r),
    ensures
        r == saved,
        saved is Err ==> final(p)@ == old(p)@,
        saved is Ok && change is Pair ==> {
            let d = change->Pair_0;
            &&& final(p)@.challenge is None
            &&& final(p)@.trusted.contains_key(d.id.0@) && final(p)@.trusted[d.id.0@] == d
            &&& other != d.id.0@ ==> same_device(old(p)@, final(p)@, other)
        },
        saved is Ok && change is Trust ==> {
            let d = change->Trust_0;
            &&& final(p)@.challenge == old(p)@.challenge
            &&& final(p)@.trusted.contains_key(d.id.0@) && final(p)@.trusted[d.id.0@] == d
            &&& other != d.id.0@ ==> same_device(old(p)@, final(p)@, other)
        },
        saved is Ok && change is Remove ==> {
            let id = change->Remove_0.0@;
            &&& final(p)@.challenge == old(p)@.challenge
            &&& !final(p)@.trusted.contains_key(id)
            &&& other != id ==> same_device(old(p)@, final(p)@, other)
        },
{
}

/// Whether the device called `id` is known alike before and after.
pub open spec fn same_device(before: PairingView, after: PairingView, id: Seq<char>) -> bool {
    &&& after.trusted.contains_key(id) <==> before.trusted.contains_key(id)
    &&& before.trusted.contains_key(id) ==> after.trusted[id] == before.trusted[id]
}

/// A store that is saved for a change holds the device that is added and every other
/// device, and not the one that is removed; each is there once.
pub proof fn law_saved_store(p: &PairingManager, change: TrustChange, r: TrustedStore, i: int, j: int)
    requires
        call_ensures(PairingManager::store_after, (p, &change), r),
        forall|k: Seq<char>| #[trigger] p@.trusted.contains_key(k) ==> p@.trusted[k].id@ == k,
    ensures
        change is Pair ==> r.devices@.contains(change->Pair_0),
        change is Trust ==> r.devices@.contains(change->Trust_0),
        change is Remove && 0 <= i < r.devices@.len() ==> r.devices@[i].id.0@
            != change->Remove_0.0@,
        forall|k: Seq<char>| #[trigger]
            p@.trusted.contains_key(k) && (change is Pair ==> k != change->Pair_0.id.0@) && (
            change is Trust ==> k != change->Trust_0.id.0@) && (change is Remove ==> k
                != change->Remove_0.0@) ==> r.devices@.contains(p@.trusted[k]),
        0 <= i < j < r.devices@.len() ==> r.devices@[i].id.0@ != r.devices@[j].id.0@,
{
    let after = p@.changed(change).trusted;
    let id = own_id();
    if change is Pair {
        assert(after.contains_key(change->Pair_0.id@));
    }
    if change is Trust {
        assert(after.contains_key(change->Trust_0.id@));
    }
    assert forall|k: Seq<char>| #[trigger]
        p@.trusted.contains_key(k) && (change is Pair ==> k != change->Pair_0.id.0@) && (change
            is Trust ==> k != change->Trust_0.id.0@) && (change is Remove ==> k
            != change->Remove_0.0@) implies r.devices@.contains(p@.trusted[k]) by {
        assert(after.contains_key(k));
        assert(after[k] == p@.trusted[k]);
    }
    if 0 <= i < r.devices@.len() {
        assert(after.contains_key(id(r.devices@[i])));
    }
    if 0 <= i < j < r.devices@.len() {
        assert(id(r.devices@[i]) != id(r.devices@[j]));
    }
}

/// Every device of a store is known, under what the store says last of it, and nobody
/// else; no challenge is open.
pub proof fn law_loaded_store(store: TrustedStore, r: PairingManager, i: int)
    requires
        call_ensures(PairingManager::with_store, (store,), r),
        0 <= i < store.devices@.len(),
    ensures
        r@.challenge is None,
        r@.trusted.contains_key(store.devices@[i].id.0@),
        (forall|j: int|
            i < j < store.devices@.len() ==> (#[trigger] store.devices@[j]).id.0@
                != store.devices@[i].id.0@) ==> r@.trusted[store.devices@[i].id.0@]
            == store.devices@[i],
        forall|k: Seq<char>| #[trigger]
            r@.trusted.contains_key(k) ==> exists|j: int|
                0 <= j < store.devices@.len() && (#[trigger] store.devices@[j]).id.0@ == k,
{
    lemma_loaded(store.devices@, i);
}

proof fn lemma_loaded(l: Seq<TrustedDevice>, i: int)
    requires
        0 <= i < l.len(),
    ensures
        by_id(l).contains_key(l[i].id.0@),
        (forall|j: int| i < j < l.len() ==> (#[trigger] l[j]).id.0@ != l[i].id.0@) ==> by_id(
            l,
        )[l[i].id.0@] == l[i],
        forall|k: Seq<char>| #[trigger]
            by_id(l).contains_key(k) ==> exists|j: int|
                0 <= j < l.len() && (#[trigger] l[j]).id.0@ == k,
    decreases l.len(),
{
    let d = l.drop_last();
    assert(l[l.len() - 1] == l.last());
    if i < d.len() {
        lemma_loaded(d, i);
        assert(d[i] == l[i]);
        if forall|j: int| i < j < l.len() ==> (#[trigger] l[j]).id.0@ != l[i].id.0@ {
            assert forall|j: int| i < j < d.len() implies (#[trigger] d[j]).id.0@ != d[i].id.0@ by {
                assert(l[j].id.0@ != l[i].id.0@);
            }
            assert(l[l.len() - 1].id.0@ != l[i].id.0@);
        }
    } else if d.len() > 0 {
        lemma_loaded(d, 0);
    }
    assert forall|k: Seq<char>| #[trigger] by_id(l).contains_key(k) implies exists|j: int|
        0 <= j < l.len() && (#[trigger] l[j]).id.0@ == k by {
        if k == l.last().id.0@ {
            assert(l[l.len() - 1].id.0@ == k);
        } else {
            assert(by_id(d).contains_key(k));
            let j = choose|j: int| 0 <= j < d.len() && (#[trigger] d[j]).id.0@ == k;
            assert(l[j].id.0@ == k);
        }
    }
}

/// A challenge is opened for one connection and one device, with all its attempts, and is
/// good for that many seconds; who is trusted does not change.
pub proof fn law_challenge_opens(
    p: &mut PairingManager,
    session_id: &str,
    device_name: &str,
    ttl: u64,
    challenge_id: String,
    code: String,
    nonce: String,
    now: u128,
    r: PairChallenge,
)
    requires
        call_ensures(
            PairingManager::start_challenge_at,
            (p, session_id, device_name, ttl, challenge_id, code, nonce, now),
            r,
        ),
    ensures
        final(p)@.challenge == Some(r),
        final(p)@.trusted == old(p)@.trusted,
        r.session_id@ == session_id@ && r.device_name@ == device_name@,
        r.challenge_id@ == challenge_id@ && r.code@ == code@ && r.nonce@ == nonce@,
        r.attempts_left == 5,
        r.expires_at - now == ttl * 1_000_000_000,
{
}

/// The end of a connection closes its own challenge, and no other.
pub proof fn law_cancelling(p: &mut PairingManager, session_id: &str, r: ())
    requires
        call_ensures(PairingManager::cancel_session, (p, session_id), r),
    ensures
        final(p)@.trusted == old(p)@.trusted,
        old(p)@.challenge matches Some(c) && c.session_id@ == session_id@
            ==> final(p)@.challenge is None,
        !(old(p)@.challenge matches Some(c) && c.session_id@ == session_id@)
            ==> final(p)@.challenge == old(p)@.challenge,
{
}

/// Forgetting a device forgets that one alone.
pub proof fn law_untrusting(p: &mut PairingManager, id: &DeviceId, r: bool, other: Seq<char>)
    requires
        call_ensures(PairingManager::untrust, (p, id), r),
    ensures
        r <==> old(p)@.trusted.contains_key(id.0@),
        !final(p)@.trusted.contains_key(id.0@),
        other != id.0@ ==> same_device(old(p)@, final(p)@, other),
        final(p)@.challenge == old(p)@.challenge,
{
}

/// Seeing a known device notes when, and changes nothing else of it or of anyone.
pub proof fn law_seeing(p: &mut PairingManager, id: &DeviceId, now: i64, r: (), other: Seq<char>)
    requires
        call_ensures(PairingManager::mark_seen_at, (p, id, now), r),
    ensures
        final(p)@.challenge == old(p)@.challenge,
        other != id.0@ ==> same_device(old(p)@, final(p)@, other),
        final(p)@.trusted.contains_key(id.0@) <==> old(p)@.trusted.contains_key(id.0@),
        old(p)@.trusted.contains_key(id.0@) ==> {
            let was = old(p)@.trusted[id.0@];
            let is = final(p)@.trusted[id.0@];
            &&& is.last_seen == now
            &&& is.id == was.id && is.name == was.name && is.kind == was.kind
            &&& is.paired_at == was.paired_at && is.trusted == was.trusted
        },
{
}

/// What is asked of a manager agrees with what it holds: who is trusted, under which name,
/// and which code is shown while it is good.
pub proof fn law_questions(
    p: &PairingManager,
    id: &DeviceId,
    now: u128,
    trusted: bool,
    name: Option<&str>,
    known: bool,
    pin: Option<String>,
)
    requires
        call_ensures(PairingManager::is_trusted, (p, id), trusted),
        call_ensures(PairingManager::device_name, (p, id), name),
        call_ensures(PairingManager::knows, (p, id), known),
        call_ensures(PairingManager::active_pin_at, (p, now), pin),
    ensures
        known <==> p@.trusted.contains_key(id.0@),
        trusted <==> known && p@.trusted[id.0@].trusted,
        name is Some <==> known,
        name is Some ==> name->Some_0@ == p@.trusted[id.0@].name@,
        pin is Some <==> (p@.challenge matches Some(c) && now < c.expires_at),
        pin is Some ==> pin->Some_0@ == p@.challenge->Some_0.code@,
{
}

/// The devices are listed with those seen last first, those seen at one time in the order
/// of the store, each as often as it is there.
pub proof fn law_latest_first(s: &TrustedStore, r: Vec<&TrustedDevice>)
    requires
        call_ensures(TrustedStore::trusted_devices, (s,), r),
    ensures
        r@.len() == s.devices@.len(),
        forall|i: int, j: int|
            0 <= i < j < r@.len() ==> (#[trigger] r@[i]).last_seen >= (#[trigger] r@[j]).last_seen,
        forall|i: int|
            0 <= i < s.devices@.len() ==> derefs(r@).contains(#[trigger] s.devices@[i]),
        forall|k: int| 0 <= k < r@.len() ==> s.devices@.contains(*(#[trigger] r@[k])),
        forall|i: int, j: int|
            0 <= i < j < s.devices@.len() && (#[trigger] s.devices@[i]).last_seen == (
            #[trigger] s.devices@[j]).last_seen ==> exists|a: int, b: int|
                0 <= a < b < r@.len() && *(#[trigger] r@[a]) == s.devices@[i] && *(
                #[trigger] r@[b]) == s.devices@[j],
{
    let source = s.devices@;
    let out = derefs(r@);
    let p = choose|p: Seq<usize>|
        #![trigger sort::is_arrangement(p, source.len())]
        {
            &&& sort::is_arrangement(p, source.len())
            &&& sort::is_stable(p, |i: int, j: int| seen_later()(source[i], source[j]))
            &&& out.len() == source.len()
            &&& forall|i: int| 0 <= i < out.len() ==> #[trigger] out[i] == source[p[i] as int]
        };
    let order = |i: int, j: int| seen_later()(source[i], source[j]);
    assert forall|k: int| 0 <= k < r@.len() implies *(#[trigger] r@[k]) == source[p[k] as int] by {
        assert(out[k] == source[p[k] as int]);
    }
    assert forall|i: int, j: int| 0 <= i < j < r@.len() implies (#[trigger] r@[i]).last_seen >= (
    #[trigger] r@[j]).last_seen by {
        assert(!order(p[j] as int, p[i] as int));
    }
    assert forall|i: int| 0 <= i < source.len() implies out.contains(#[trigger] source[i]) by {
        sort::lemma_arrangement_covers(p, source.len(), i);
        let k = choose|k: int| 0 <= k < source.len() && #[trigger] p[k] == i;
        assert(out[k] == source[i]);
    }
    assert forall|k: int| 0 <= k < r@.len() implies source.contains(*(#[trigger] r@[k])) by {
        assert(p[k] < source.len());
        assert(source[p[k] as int] == *r@[k]);
    }
    assert forall|i: int, j: int|
        0 <= i < j < source.len() && (#[trigger] source[i]).last_seen == (
        #[trigger] source[j]).last_seen implies exists|a: int, b: int|
        0 <= a < b < r@.len() && *(#[trigger] r@[a]) == source[i] && *(#[trigger] r@[b])
            == source[j] by {
        sort::lemma_arrangement_covers(p, source.len(), i);
        sort::lemma_arrangement_covers(p, source.len(), j);
        let a = choose|k: int| 0 <= k < source.len() && #[trigger] p[k] == i;
        let b = choose|k: int| 0 <= k < source.len() && #[trigger] p[k] == j;
        if b < a {
            assert(!order(p[b] as int, p[a] as int));
            assert(p[b] < p[a]);
        }
        assert(a != b);
        assert(*r@[a] == source[i] && *r@[b] == source[j]);
    }
}

/// All known devices are listed, once each, those seen last first.
pub proof fn law_known_devices(
    p: &PairingManager,
    r: Vec<&TrustedDevice>,
    k: Seq<char>,
    i: int,
    j: int,
)
    requires
        call_ensures(PairingManager::trusted_devices, (p,), r),
    ensures
        p@.trusted.contains_key(k) ==> derefs(r@).contains(p@.trusted[k]),
        0 <= i < r@.len() ==> p@.trusted.contains_key(r@[i].id.0@) && p@.trusted[r@[i].id.0@]
            == *r@[i],
        0 <= i < j < r@.len() ==> r@[i].id.0@ != r@[j].id.0@ && r@[i].last_seen >= r@[j].last_seen,
{
    let l = derefs(r@);
    if p@.trusted.contains_key(k) {
        assert(exists|i: int| 0 <= i < l.len() && #[trigger] l[i] == p@.trusted[k]);
    }
    if 0 <= i < r@.len() {
        assert(l[i] == *r@[i]);
        assert(p@.trusted.contains_key(own_id()(l[i])));
    }
    if 0 <= i < j < r@.len() {
        assert(l[i] == *r@[i] && l[j] == *r@[j]);
        assert(own_id()(l[i]) != own_id()(l[j]));
    }
}

/// A code is six decimal digits and no less than 100000; a nonce is 32 small hexadecimal
/// digits; a device that is trusted unasked is new, trusted and seen at once.
pub proof fn law_what_is_made(
    pin: String,
    nonce: String,
    name: &str,
    kind: &str,
    change: TrustChange,
    i: int,
)
    requires
        call_ensures(generate_pin, (), pin),
        call_ensures(generate_nonce, (), nonce),
        call_ensures(PairingManager::begin_trust, (name, kind), change),
    ensures
        pin@.len() == 6 && '1' <= pin@[0] <= '9',
        0 <= i < 6 ==> '0' <= pin@[i] <= '9',
        nonce@.len() == 32,
        encoding::unhex(nonce@) is Some && encoding::unhex(nonce@)->Some_0.len() == 16,
        change is Trust && {
            let d = change->Trust_0;
            &&& d.name@ == name@ && d.kind@ == kind@
            &&& d.trusted && d.last_seen == d.paired_at
            &&& d.id.0@.len() == 36
        },
{
    assert(text::is_digit(pin@[0]));
    if 0 <= i < 6 {
        assert(text::is_digit(pin@[i]));
    }
    let b = choose|b: Seq<u8>| b.len() == 16 && nonce@ == #[trigger] encoding::hex_of(b);
    encoding::law_hex_round_trip(b);
}

/// By the clock, a challenge opens with a fresh code, a right answer to it alone is accepted,
/// its code is shown alone, and only the device that is seen changes.
pub proof fn law_by_the_clock(
    p: &mut PairingManager,
    session_id: &str,
    device_name: &str,
    ttl: u64,
    opened: PairChallenge,
    q: &mut PairingManager,
    session: &str,
    challenge_id: &str,
    nonce: &str,
    code: &str,
    kind: &str,
    r: Result<TrustChange, PairingError>,
    s: &PairingManager,
    pin: Option<String>,
    t: &mut PairingManager,
    id: &DeviceId,
    seen: (),
    other: Seq<char>,
)
    requires
        call_ensures(PairingManager::start_challenge, (p, session_id, device_name, ttl), opened),
        call_ensures(
            PairingManager::begin_submit,
            (q, session, challenge_id, nonce, code, kind),
            r,
        ),
        call_ensures(PairingManager::active_pin, (s,), pin),
        call_ensures(PairingManager::mark_seen, (t, id), seen),
    ensures
        final(p)@.challenge == Some(opened) && final(p)@.trusted == old(p)@.trusted,
        opened.session_id@ == session_id@ && opened.device_name@ == device_name@
            && opened.attempts_left == 5 && opened.code@.len() == 6 && opened.nonce@.len() == 32,
        opened.expires_at >= ttl * 1_000_000_000,
        final(q)@.trusted == old(q)@.trusted,
        r is Ok ==> final(q)@ == old(q)@ && old(q)@.challenge is Some && {
            let c = old(q)@.challenge->Some_0;
            &&& c.challenge_id@ == challenge_id@ && c.session_id@ == session@
            &&& c.nonce@ == nonce@ && c.code@ == code@
            &&& r->Ok_0 is Pair && r->Ok_0->Pair_0.name@ == c.device_name@
            &&& r->Ok_0->Pair_0.kind@ == kind@ && r->Ok_0->Pair_0.trusted
        },
        pin is Some ==> s@.challenge is Some && pin->Some_0@ == s@.challenge->Some_0.code@,
        final(t)@.challenge == old(t)@.challenge,
        other != id.0@ ==> same_device(old(t)@, final(t)@, other),
        old(t)@.trusted.contains_key(id.0@) ==> final(t)@.trusted.contains_key(id.0@)
            && final(t)@.trusted[id.0@].name == old(t)@.trusted[id.0@].name
            && final(t)@.trusted[id.0@].trusted == old(t)@.trusted[id.0@].trusted,
        !old(t)@.trusted.contains_key(id.0@) ==> !final(t)@.trusted.contains_key(id.0@),
{
    let b = choose|b: Seq<u8>| b.len() == 16 && opened.nonce@ == #[trigger] encoding::hex_of(b);
    encoding::law_hex_round_trip(b);
    let start = choose|now: u128| opened.expires_at == #[trigger] expiry(now, ttl);
    assert(expiry(start, ttl) >= ttl * 1_000_000_000);
}

/// A device that is trusted outright is known and trusted from then on; the others stay.
pub proof fn law_trusting(
    p: &mut PairingManager,
    name: &str,
    kind: &str,
    r: DeviceId,
    other: Seq<char>,
)
    requires
        call_ensures(PairingManager::trust, (p, name, kind), r),
    ensures
        final(p)@.challenge == old(p)@.challenge,
        final(p)@.trusted.contains_key(r.0@),
        final(p)@.trusted[r.0@].name@ == name@ && final(p)@.trusted[r.0@].kind@ == kind@
            && final(p)@.trusted[r.0@].trusted,
        other != r.0@ ==> same_device(old(p)@, final(p)@, other),
{
}

/// A submission, right or wrong, opens no challenge: where there was none there is none, and one
/// that stays is the same but for its attempts, of which a wrong code takes one.
pub proof fn law_no_new_challenge(
    p: &mut PairingManager,
    session_id: &str,
    challenge_id: &str,
    nonce: &str,
    code: &str,
    kind: &str,
    now: u128,
    r: Result<TrustChange, PairingError>,
)
    requires
        call_ensures(
            PairingManager::begin_submit_at,
            (p, session_id, challenge_id, nonce, code, kind, now),
            r,
        ),
    ensures
        old(p)@.challenge is None ==> final(p)@.challenge is None && r is Err,
        final(p)@.challenge is Some ==> old(p)@.challenge is Some && {
            let was = old(p)@.challenge->Some_0;
            let is = final(p)@.challenge->Some_0;
            &&& is.challenge_id == was.challenge_id && is.session_id == was.session_id
            &&& is.nonce == was.nonce && is.code == was.code
            &&& is.expires_at == was.expires_at && is.device_name == was.device_name
            &&& is.attempts_left <= was.attempts_left <= is.attempts_left + 1
        },
{
}

} // verus!
