//! End-to-end encryption of what a relay carries.
//!
//! Keys reach the peers by another way; the relay never has them. Each payload is
//! sealed with AES-256-GCM under a fresh random nonce, and the relay's header is bound
//! to it as associated data.

use aes_gcm::aead::{Aead, KeyInit, Payload};
use vstd::prelude::*;
use vstd::utf8::encode_utf8;

use crate::auth::{GroupId, SessionId};
use crate::encoding;
use crate::entropy;
use crate::protocol::{clone_id, opt_id, DeviceId};
use crate::table::Table;
use crate::text;

verus! {

/// What AES-256-GCM makes of `msg`, the tag at its end.
pub uninterp spec fn aes_seal(key: Seq<u8>, nonce: Seq<u8>, aad: Seq<u8>, msg: Seq<u8>) -> Seq<u8>;

/// What AES-256-GCM opens `sealed` to, if its tag is right.
pub uninterp spec fn aes_open(key: Seq<u8>, nonce: Seq<u8>, aad: Seq<u8>, sealed: Seq<u8>) -> Option<
    Seq<u8>,
>;

/// The longest message, and the longest associated data, that AES-GCM takes.
pub const AEAD_LIMIT: u64 = 68_719_476_736;

/// `Aead::encrypt` of `aes_gcm::Aes256Gcm`: fails exactly on a message or associated
/// data longer than 2^36 bytes; the result is a function of its arguments, 16 bytes
/// longer than the message, and `decrypt` with the same key, nonce and associated data
/// gives the message back.
#[verifier::external_body]
pub(crate) fn seal(key: &[u8; 32], nonce: &[u8], aad: &[u8], msg: &[u8]) -> (r: Option<
    Vec<u8>,
>)
    requires
        nonce@.len() == 12,
        msg@.len() + 16 <= isize::MAX,
    ensures
        r is Some == (msg@.len() <= AEAD_LIMIT && aad@.len() <= AEAD_LIMIT),
        r matches Some(c) ==> {
            &&& c@ == aes_seal(key@, nonce@, aad@, msg@)
            &&& c@.len() == msg@.len() + 16
            &&& aes_open(key@, nonce@, aad@, c@) == Some(msg@)
        },
{
    let cipher = aes_gcm::Aes256Gcm::new(aes_gcm::Key::<aes_gcm::Aes256Gcm>::from_slice(key));
    cipher.encrypt(aes_gcm::Nonce::from_slice(nonce), Payload { msg, aad }).ok()
}

/// `Aead::decrypt` of `aes_gcm::Aes256Gcm`: the result is a function of its arguments,
/// and where it succeeds with a message that `encrypt` takes, `encrypt` of it with the
/// same key, nonce and associated data is what was opened.
#[verifier::external_body]
pub(crate) fn open(key: &[u8; 32], nonce: &[u8], aad: &[u8], sealed: &[u8]) -> (r: Option<
    Vec<u8>,
>)
    requires
        nonce@.len() == 12,
    ensures
        r is Some == aes_open(key@, nonce@, aad@, sealed@) is Some,
        r matches Some(m) ==> {
            &&& aes_open(key@, nonce@, aad@, sealed@) == Some(m@)
            &&& m@.len() <= AEAD_LIMIT ==> aes_seal(key@, nonce@, aad@, m@) == sealed@
        },
{
    let cipher = aes_gcm::Aes256Gcm::new(aes_gcm::Key::<aes_gcm::Aes256Gcm>::from_slice(key));
    cipher.decrypt(aes_gcm::Nonce::from_slice(nonce), Payload { msg: sealed, aad }).ok()
}

/// A sealed payload: which key sealed it, the nonce in hexadecimal and the sealed bytes
/// in base64.
#[derive(Debug, PartialEq, Eq)]
pub struct EncryptedRelayPayload {
    pub key_id: String,
    pub nonce: String,
    pub ciphertext: String,
}

impl Clone for EncryptedRelayPayload {
    fn clone(&self) -> (r: Self)
        ensures
            r == *self,
    {
        EncryptedRelayPayload {
            key_id: self.key_id.clone(),
            nonce: self.nonce.clone(),
            ciphertext: self.ciphertext.clone(),
        }
    }
}

/// What a relay carries: it can route by the header, and cannot read the payload.
#[derive(Debug, PartialEq, Eq)]
pub struct OutboundEnvelope {
    pub kind: String,
    pub session_id: SessionId,
    pub source: DeviceId,
    pub destination: Option<DeviceId>,
    pub group: GroupId,
    pub sequence: u64,
    pub payload: EncryptedRelayPayload,
}

impl Clone for OutboundEnvelope {
    fn clone(&self) -> (r: Self)
        ensures
            r == *self,
    {
        OutboundEnvelope {
            kind: self.kind.clone(),
            session_id: self.session_id.clone(),
            source: self.source.clone(),
            destination: clone_id(&self.destination),
            group: self.group.clone(),
            sequence: self.sequence,
            payload: self.payload.clone(),
        }
    }
}

/// The part of an envelope that its payload is bound to.
#[derive(Debug, Clone, Copy, PartialEq, Eq)]
pub struct RelayHeader<'a> {
    pub session_id: &'a str,
    pub source: &'a str,
    pub destination: Option<&'a str>,
    pub group: &'a str,
    pub sequence: u64,
    pub key_id: &'a str,
}

/// The contents of a `RelayHeader`.
pub struct HeaderView {
    pub session_id: Seq<char>,
    pub source: Seq<char>,
    pub destination: Option<Seq<char>>,
    pub group: Seq<char>,
    pub sequence: u64,
    pub key_id: Seq<char>,
}

impl<'a> View for RelayHeader<'a> {
    type V = HeaderView;

    open spec fn view(&self) -> HeaderView {
        HeaderView {
            session_id: self.session_id@,
            source: self.source@,
            destination: match self.destination {
                Some(d) => Some(d@),
                None => None,
            },
            group: self.group@,
            sequence: self.sequence,
            key_id: self.key_id@,
        }
    }
}

impl OutboundEnvelope {
    /// The header that the envelope's payload is bound to.
    pub fn header(&self) -> (r: RelayHeader<'_>)
        ensures
            r@ == (HeaderView {
                session_id: self.session_id@,
                source: self.source@,
                destination: opt_id(self.destination),
                group: self.group@,
                sequence: self.sequence,
                key_id: self.payload.key_id@,
            }),
    {
        RelayHeader {
            session_id: self.session_id.as_str(),
            source: self.source.as_str(),
            destination: match &self.destination {
                Some(d) => Some(d.as_str()),
                None => None,
            },
            group: self.group.as_str(),
            sequence: self.sequence,
            key_id: self.payload.key_id.as_str(),
        }
    }
}

#[derive(Debug, PartialEq, Eq)]
pub enum RelayCryptoError {
    InvalidField,
    UnknownKey,
    Authentication,
    /// The opened bytes are not a message; why, in words.
    Message(String),
    KeyMaterial,
}

impl RelayCryptoError {
    /// What the error says.
    pub open spec fn text(self) -> Seq<char> {
        match self {
            RelayCryptoError::InvalidField => "invalid relay crypto field"@,
            RelayCryptoError::UnknownKey => "unknown relay key"@,
            RelayCryptoError::Authentication => "AEAD authentication failed"@,
            RelayCryptoError::Message(e) => "invalid message: "@ + e@,
            RelayCryptoError::KeyMaterial => "invalid key material"@,
        }
    }

    pub fn to_string(&self) -> (r: String)
        ensures
            r@ == self.text(),
    {
        match self {
            RelayCryptoError::InvalidField => "invalid relay crypto field".to_owned(),
            RelayCryptoError::UnknownKey => "unknown relay key".to_owned(),
            RelayCryptoError::Authentication => "AEAD authentication failed".to_owned(),
            RelayCryptoError::Message(e) => "invalid message: ".to_owned().concat(e.as_str()),
            RelayCryptoError::KeyMaterial => "invalid key material".to_owned(),
        }
    }
}

/// Where key material is kept.
#[derive(Debug, PartialEq, Eq)]
pub enum KeySource {
    /// The environment variable of that name.
    Env(String),
    /// The file at that path.
    File(String),
}

/// Where a reference points: `env:` and a variable, `file:` and a path, or a bare path.
pub fn key_source(reference: &str) -> (r: KeySource)
    ensures
        match r {
            KeySource::Env(name) => text::has_prefix(reference@, "env:"@) && name@
                == reference@.skip("env:"@.len() as int),
            KeySource::File(path) => !text::has_prefix(reference@, "env:"@) && path@
                == if text::has_prefix(reference@, "file:"@) {
                reference@.skip("file:"@.len() as int)
            } else {
                reference@
            },
        },
{
    match text::strip_prefix(reference, "env:") {
        Some(name) => KeySource::Env(name),
        None => match text::strip_prefix(reference, "file:") {
            Some(path) => KeySource::File(path),
            None => KeySource::File(reference.to_owned()),
        },
    }
}

/// Whether a file's permission bits keep it to its owner: none is set for the group or
/// for others.
pub open spec fn owner_only(mode: u32) -> bool {
    mode % 64 == 0
}

/// Whether a file's permission bits keep it to its owner.
pub fn is_owner_only(mode: u32) -> (r: bool)
    ensures
        r == owner_only(mode),
{
    assert((mode & 0o077 == 0) == (mode % 64 == 0)) by (bit_vector);
    mode & 0o077 == 0
}

/// Whether `c` may stand in a key's name.
pub open spec fn is_key_id_char(c: char) -> bool {
    ('0' <= c <= '9') || ('a' <= c <= 'z') || ('A' <= c <= 'Z') || c == '_' || c == '-'
}

/// Whether `s` names a key: 1 to 64 ASCII letters, digits, underscores and hyphens.
pub open spec fn is_key_id(s: Seq<char>) -> bool {
    0 < s.len() <= 64 && forall|i: int| 0 <= i < s.len() ==> is_key_id_char(#[trigger] s[i])
}

/// Accepts `key_id` where it is 1 to 64 ASCII letters, digits, underscores and hyphens.
pub fn validate_key_id(key_id: &str) -> (r: Result<(), RelayCryptoError>)
    ensures
        r == if is_key_id(key_id@) {
            Ok(())
        } else {
            Err(RelayCryptoError::InvalidField)
        },
{
    let c = text::to_chars(key_id);
    if c.len() == 0 || c.len() > 64 {
        return Err(RelayCryptoError::InvalidField);
    }
    let mut i: usize = 0;
    while i < c.len()
        invariant
            i <= c@.len(),
            0 < c@.len() <= 64,
            c@ == key_id@,
            forall|k: int| 0 <= k < i ==> is_key_id_char(#[trigger] c@[k]),
        decreases c@.len() - i,
    {
        let ch = c[i];
        if !(('0' <= ch && ch <= '9') || ('a' <= ch && ch <= 'z') || ('A' <= ch && ch <= 'Z') || ch
            == '_' || ch == '-') {
            assert(!is_key_id_char(key_id@[i as int]));
            return Err(RelayCryptoError::InvalidField);
        }
        i = i + 1;
    }
    Ok(())
}

/// A line of key material: the key's name, its group and its bytes.
pub struct KeyLine {
    pub key_id: Seq<char>,
    pub group: Seq<char>,
    pub key: Seq<u8>,
}

/// What a line of key material says: `key_id group_id hex_key`, with white space
/// between them and 32 bytes of key.
pub open spec fn key_line(value: Seq<char>) -> Result<KeyLine, RelayCryptoError> {
    let f = text::words_of(value);
    if f.len() != 3 || text::trim_of(f[1]).len() == 0 || !(encoding::unhex(f[2]) matches Some(k)
        && k.len() == 32) {
        Err(RelayCryptoError::KeyMaterial)
    } else if !is_key_id(f[0]) {
        Err(RelayCryptoError::InvalidField)
    } else {
        Ok(KeyLine { key_id: f[0], group: f[1], key: encoding::unhex(f[2])->Some_0 })
    }
}

/// The first 32 bytes of `b`.
fn to_key(b: &[u8]) -> (r: [u8; 32])
    requires
        b@.len() == 32,
    ensures
        r@ == b@,
{
    let mut key: [u8; 32] = [0u8;32];
    let mut i: usize = 0;
    while i < 32
        invariant
            i <= 32,
            b@.len() == 32,
            forall|k: int| 0 <= k < i ==> #[trigger] key@[k] == b@[k],
        decreases 32 - i,
    {
        key[i] = b[i];
        i = i + 1;
    }
    assert(key@ =~= b@);
    key
}

/// Reads a line of key material.
pub fn parse_key_line(value: &str) -> (r: Result<(String, GroupId, [u8; 32]), RelayCryptoError>)
    ensures
        r matches Ok((key_id, group, key)) ==> key_line(value@) == Ok::<KeyLine, RelayCryptoError>(
            KeyLine { key_id: key_id@, group: group@, key: key@ },
        ),
        r matches Err(e) ==> key_line(value@) == Err::<KeyLine, RelayCryptoError>(e),
{
    let fields = text::words(value);
    let ghost f = text::words_of(value@);
    assert(text::views(fields@).len() == fields@.len());
    if fields.len() != 3 {
        return Err(RelayCryptoError::KeyMaterial);
    }
    assert(fields@[0]@ == f[0] && fields@[1]@ == f[1] && fields@[2]@ == f[2]) by {
        assert(text::views(fields@)[0] == f[0]);
        assert(text::views(fields@)[1] == f[1]);
        assert(text::views(fields@)[2] == f[2]);
    }
    let group = match GroupId::from_string(fields[1].as_str()) {
        Some(g) => g,
        None => {
            return Err(RelayCryptoError::KeyMaterial);
        },
    };
    let bytes = match encoding::hex_decode(fields[2].as_str()) {
        Ok(b) => b,
        Err(_) => {
            return Err(RelayCryptoError::KeyMaterial);
        },
    };
    if bytes.len() != 32 {
        return Err(RelayCryptoError::KeyMaterial);
    }
    let key = to_key(bytes.as_slice());
    match validate_key_id(fields[0].as_str()) {
        Err(e) => Err(e),
        Ok(()) => Ok((fields[0].clone(), group, key)),
    }
}

/// Reads the first line of key material.
pub fn load_key_material(material: &str) -> (r: Result<
    (String, GroupId, [u8; 32]),
    RelayCryptoError,
>)
    ensures
        ({
            let l = text::lines_of(material@);
            let line = if l.len() == 0 {
                Err::<KeyLine, RelayCryptoError>(RelayCryptoError::KeyMaterial)
            } else {
                key_line(l[0])
            };
            match r {
                Ok((key_id, group, key)) => line == Ok::<KeyLine, RelayCryptoError>(
                    KeyLine { key_id: key_id@, group: group@, key: key@ },
                ),
                Err(e) => line == Err::<KeyLine, RelayCryptoError>(e),
            }
        }),
{
    let l = text::lines(material);
    assert(text::views(l@).len() == l@.len());
    if l.len() == 0 {
        return Err(RelayCryptoError::KeyMaterial);
    }
    assert(text::views(l@)[0] == l@[0]@);
    parse_key_line(l[0].as_str())
}

/// The keys of a group, the one that seals and those that still open.
pub struct RelayKeyRing {
    current: String,
    keys: Table<[u8; 32]>,
}

/// The contents of a `RelayKeyRing`.
pub struct RingView {
    pub current: Seq<char>,
    pub keys: Map<Seq<char>, Seq<u8>>,
}

impl View for RelayKeyRing {
    type V = RingView;

    closed spec fn view(&self) -> RingView {
        RingView { current: self.current@, keys: self.keys@.map_values(|k: [u8; 32]| k@) }
    }
}

impl RingView {
    /// A ring with one key.
    pub open spec fn single(key_id: Seq<char>, key: Seq<u8>) -> RingView {
        RingView { current: key_id, keys: Map::empty().insert(key_id, key) }
    }

    /// The ring with one more key, which now seals.
    pub open spec fn rotated(self, key_id: Seq<char>, key: Seq<u8>) -> RingView {
        RingView { current: key_id, keys: self.keys.insert(key_id, key) }
    }
}

/// A ring and the group that it is for.
pub struct GroupRing {
    pub ring: RingView,
    pub group: Seq<char>,
}

/// The ring that lines of key material make: the last key seals, and all are for one
/// group.
pub open spec fn ring_of(lines: Seq<Seq<char>>) -> Result<GroupRing, RelayCryptoError>
    decreases lines.len(),
{
    if lines.len() == 0 {
        Err(RelayCryptoError::KeyMaterial)
    } else if lines.len() == 1 {
        match key_line(lines[0]) {
            Err(e) => Err(e),
            Ok(k) => Ok(GroupRing { ring: RingView::single(k.key_id, k.key), group: k.group }),
        }
    } else {
        match ring_of(lines.drop_last()) {
            Err(e) => Err(e),
            Ok(g) => match key_line(lines.last()) {
                Err(e) => Err(e),
                Ok(k) => if k.group != g.group {
                    Err(RelayCryptoError::KeyMaterial)
                } else {
                    Ok(GroupRing { ring: g.ring.rotated(k.key_id, k.key), group: g.group })
                },
            },
        }
    }
}

proof fn lemma_ring_error(lines: Seq<Seq<char>>, n: int)
    requires
        0 < n <= lines.len(),
        ring_of(lines.take(n)) is Err,
    ensures
        ring_of(lines) == ring_of(lines.take(n)),
    decreases lines.len() - n,
{
    if n == lines.len() {
        assert(lines.take(n) =~= lines);
    } else {
        assert(lines.take(n + 1).drop_last() =~= lines.take(n));
        lemma_ring_error(lines, n + 1);
    }
}

/// Reads all key generations, in the order of their lines. The last seals; the earlier
/// ones still open.
pub fn load_key_ring(material: &str) -> (r: Result<(RelayKeyRing, GroupId), RelayCryptoError>)
    ensures
        match r {
            Ok((ring, group)) => ring.wf() && ring_of(text::lines_of(material@)) == Ok::<
                GroupRing,
                RelayCryptoError,
            >(GroupRing { ring: ring@, group: group@ }),
            Err(e) => ring_of(text::lines_of(material@)) == Err::<GroupRing, RelayCryptoError>(e),
        },
{
    let l = text::lines(material);
    let ghost lines = text::views(l@);
    assert(lines.len() == l@.len());
    if l.len() == 0 {
        return Err(RelayCryptoError::KeyMaterial);
    }
    assert(lines.take(1)[0] == l@[0]@);
    let (first_id, group, first_key) = match parse_key_line(l[0].as_str()) {
        Ok(t) => t,
        Err(e) => {
            proof {
                lemma_ring_error(lines, 1);
            }
            return Err(e);
        },
    };
    let mut ring = match RelayKeyRing::new(first_id.as_str(), first_key) {
        Ok(ring) => ring,
        Err(e) => {
            return Err(e);
        },
    };
    let mut i: usize = 1;
    while i < l.len()
        invariant
            1 <= i <= l@.len(),
            lines == text::views(l@),
            lines.len() == l@.len(),
            ring.wf(),
            ring_of(lines.take(i as int)) == Ok::<GroupRing, RelayCryptoError>(
                GroupRing { ring: ring@, group: group@ },
            ),
            lines == text::lines_of(material@),
        decreases l@.len() - i,
    {
        assert(lines.take(i + 1).drop_last() =~= lines.take(i as int));
        assert(lines.take(i + 1).last() == l@[i as int]@);
        match parse_key_line(l[i].as_str()) {
            Err(e) => {
                proof {
                    lemma_ring_error(lines, i + 1);
                }
                return Err(e);
            },
            Ok((key_id, next_group, key)) => {
                if !(next_group == group) {
                    proof {
                        lemma_ring_error(lines, i + 1);
                    }
                    return Err(RelayCryptoError::KeyMaterial);
                }
                match ring.rotate(key_id.as_str(), key) {
                    Err(e) => {
                        return Err(e);
                    },
                    Ok(()) => {},
                }
            },
        }
        i = i + 1;
    }
    assert(lines.take(i as int) =~= lines);
    Ok((ring, group))
}

/// The text that a payload is bound to: a version mark and the header's fields, with NUL
/// between them. An absent destination reads as an empty one.
pub open spec fn aad_of(h: HeaderView) -> Seq<char> {
    "clipsync-relay-v1"@ + seq!['\0'] + h.session_id + seq!['\0'] + h.source + seq!['\0'] + (
    match h.destination {
        Some(d) => d,
        None => Seq::empty(),
    }) + seq!['\0'] + h.group + seq!['\0'] + text::decimal_of(h.sequence as nat) + seq!['\0']
        + h.key_id
}

/// The text that a payload is bound to.
pub fn aad(header: &RelayHeader<'_>) -> (r: String)
    ensures
        r@ == aad_of(header@),
{
    let mut r = "clipsync-relay-v1".to_owned();
    r.push('\0');
    r.append(header.session_id);
    r.push('\0');
    r.append(header.source);
    r.push('\0');
    match header.destination {
        Some(d) => r.append(d),
        None => {},
    }
    r.push('\0');
    r.append(header.group);
    r.push('\0');
    r.append(text::decimal(header.sequence).as_str());
    r.push('\0');
    r.append(header.key_id);
    assert(r@ =~= aad_of(header@));
    r
}

/// What sealing `plaintext` gives.
pub struct SealedView {
    pub key_id: Seq<char>,
    pub nonce: Seq<char>,
    pub ciphertext: Seq<char>,
}

impl View for EncryptedRelayPayload {
    type V = SealedView;

    open spec fn view(&self) -> SealedView {
        SealedView {
            key_id: self.key_id@,
            nonce: self.nonce@,
            ciphertext: self.ciphertext@,
        }
    }
}

/// What the ring's current key makes of `plaintext` under `header` and `nonce`.
pub open spec fn sealed_of(
    ring: RingView,
    header: HeaderView,
    plaintext: Seq<u8>,
    nonce: Seq<u8>,
) -> SealedView {
    SealedView {
        key_id: ring.current,
        nonce: encoding::hex_of(nonce),
        ciphertext: encoding::base64_of(
            aes_seal(ring.keys[ring.current], nonce, encode_utf8(aad_of(header)), plaintext),
        ),
    }
}

/// What a sealed payload opens to under `header`.
pub open spec fn opened_of(ring: RingView, header: HeaderView, payload: SealedView) -> Result<
    Seq<u8>,
    RelayCryptoError,
> {
    if !ring.keys.contains_key(payload.key_id) {
        Err(RelayCryptoError::UnknownKey)
    } else if !(encoding::unhex(payload.nonce) matches Some(n) && n.len() == 12) {
        Err(RelayCryptoError::InvalidField)
    } else if encoding::unbase64(payload.ciphertext) is None {
        Err(RelayCryptoError::InvalidField)
    } else {
        match aes_open(
            ring.keys[payload.key_id],
            encoding::unhex(payload.nonce)->Some_0,
            encode_utf8(aad_of(header)),
            encoding::unbase64(payload.ciphertext)->Some_0,
        ) {
            Some(m) => Ok(m),
            None => Err(RelayCryptoError::Authentication),
        }
    }
}

/// Whether a plaintext of `n` bytes can be sealed in memory.
pub open spec fn encryptable(n: nat) -> bool {
    n + 16 <= isize::MAX && (n <= AEAD_LIMIT ==> encoding::base64_fits(n + 16))
}

impl RelayKeyRing {
    /// The current key is among the keys.
    pub closed spec fn wf(&self) -> bool {
        self.keys.wf() && self.keys@.contains_key(self.current@)
    }

    /// A ring with one key.
    pub fn new(key_id: &str, key: [u8; 32]) -> (r: Result<Self, RelayCryptoError>)
        ensures
            r is Ok == is_key_id(key_id@),
            r matches Ok(ring) ==> ring.wf() && ring@ == RingView::single(key_id@, key@),
            r matches Err(e) ==> e == RelayCryptoError::InvalidField,
    {
        match validate_key_id(key_id) {
            Err(e) => Err(e),
            Ok(()) => {
                let mut keys: Table<[u8; 32]> = Table::new();
                keys.insert(key_id.to_owned(), key);
                let ring = RelayKeyRing { current: key_id.to_owned(), keys };
                assert(ring@.keys =~= RingView::single(key_id@, key@).keys);
                Ok(ring)
            },
        }
    }

    /// Adds a key, which seals from now on; the earlier keys still open.
    pub fn rotate(&mut self, key_id: &str, key: [u8; 32]) -> (r: Result<(), RelayCryptoError>)
        requires
            old(self).wf(),
        ensures
            final(self).wf(),
            r == if is_key_id(key_id@) {
                Ok(())
            } else {
                Err(RelayCryptoError::InvalidField)
            },
            final(self)@ == if is_key_id(key_id@) {
                old(self)@.rotated(key_id@, key@)
            } else {
                old(self)@
            },
    {
        let ghost before = *self;
        match validate_key_id(key_id) {
            Err(e) => Err(e),
            Ok(()) => {
                self.keys.insert(key_id.to_owned(), key);
                self.current = key_id.to_owned();
                assert(self@.keys =~= before@.rotated(key_id@, key@).keys);
                Ok(())
            },
        }
    }

    pub fn current_key_id(&self) -> (r: &str)
        ensures
            r@ == self@.current,
    {
        self.current.as_str()
    }

    /// Seals `plaintext` with the current key under a random nonce, bound to `header`.
    /// What comes out opens to `plaintext` under the same header.
    pub fn encrypt(&self, header: &RelayHeader<'_>, plaintext: &[u8]) -> (r: Result<
        EncryptedRelayPayload,
        RelayCryptoError,
    >)
        requires
            self.wf(),
            encryptable(plaintext@.len()),
        ensures
            r is Ok == (plaintext@.len() <= AEAD_LIMIT && encode_utf8(aad_of(header@)).len()
                <= AEAD_LIMIT),
            r matches Ok(p) ==> {
                &&& exists|nonce: Seq<u8>|
                    nonce.len() == 12 && p@ == #[trigger] sealed_of(
                        self@,
                        header@,
                        plaintext@,
                        nonce,
                    )
                &&& opened_of(self@, header@, p@) == Ok::<Seq<u8>, RelayCryptoError>(plaintext@)
            },
            r matches Err(e) ==> e == RelayCryptoError::Authentication,
    {
        let nonce = entropy::random_bytes(12);
        assert(sealed_of(self@, header@, plaintext@, nonce@) == sealed_of(
            self@,
            header@,
            plaintext@,
            nonce@,
        ));
        self.encrypt_with_nonce(header, plaintext, nonce.as_slice())
    }

    /// Seals `plaintext` with the current key under `nonce`, bound to `header`.
    pub fn encrypt_with_nonce(&self, header: &RelayHeader<'_>, plaintext: &[u8], nonce: &[u8]) -> (r:
        Result<EncryptedRelayPayload, RelayCryptoError>)
        requires
            self.wf(),
            nonce@.len() == 12,
            encryptable(plaintext@.len()),
        ensures
            r is Ok == (plaintext@.len() <= AEAD_LIMIT && encode_utf8(aad_of(header@)).len()
                <= AEAD_LIMIT),
            r matches Ok(p) ==> {
                &&& p@ == sealed_of(self@, header@, plaintext@, nonce@)
                &&& opened_of(self@, header@, p@) == Ok::<Seq<u8>, RelayCryptoError>(plaintext@)
            },
            r matches Err(e) ==> e == RelayCryptoError::Authentication,
    {
        let key = match self.keys.get(self.current.as_str()) {
            Some(k) => k,
            None => {
                return Err(RelayCryptoError::UnknownKey);
            },
        };
        let bound = aad(header);
        match seal(key, nonce, bound.as_str().as_bytes(), plaintext) {
            None => Err(RelayCryptoError::Authentication),
            Some(c) => {
                let p = EncryptedRelayPayload {
                    key_id: self.current.clone(),
                    nonce: encoding::hex_encode(nonce),
                    ciphertext: encoding::base64_encode(c.as_slice()),
                };
                proof {
                    encoding::law_hex_round_trip(nonce@);
                    encoding::law_base64_round_trip(c@);
                }
                Ok(p)
            },
        }
    }

    /// Opens a sealed payload under `header`. What it opens to, sealed again with the
    /// same key and nonce under the same header, is the payload that came.
    pub fn decrypt(&self, header: &RelayHeader<'_>, payload: &EncryptedRelayPayload) -> (r: Result<
        Vec<u8>,
        RelayCryptoError,
    >)
        requires
            self.wf(),
        ensures
            match r {
                Ok(m) => opened_of(self@, header@, payload@) == Ok::<Seq<u8>, RelayCryptoError>(m@),
                Err(e) => opened_of(self@, header@, payload@) == Err::<Seq<u8>, RelayCryptoError>(
                    e,
                ),
            },
            r matches Ok(m) ==> m@.len() <= AEAD_LIMIT ==> payload.ciphertext@
                == encoding::base64_of(
                aes_seal(
                    self@.keys[payload.key_id@],
                    encoding::unhex(payload.nonce@)->Some_0,
                    encode_utf8(aad_of(header@)),
                    m@,
                ),
            ),
    {
        let key = match self.keys.get(payload.key_id.as_str()) {
            Some(k) => k,
            None => {
                return Err(RelayCryptoError::UnknownKey);
            },
        };
        let nonce = match encoding::hex_decode(payload.nonce.as_str()) {
            Ok(n) => n,
            Err(_) => {
                return Err(RelayCryptoError::InvalidField);
            },
        };
        if nonce.len() != 12 {
            return Err(RelayCryptoError::InvalidField);
        }
        let sealed = match encoding::decode_base64(payload.ciphertext.as_str()) {
            Some(c) => c,
            None => {
                return Err(RelayCryptoError::InvalidField);
            },
        };
        let bound = aad(header);
        match open(key, nonce.as_slice(), bound.as_str().as_bytes(), sealed.as_slice()) {
            Some(m) => Ok(m),
            None => Err(RelayCryptoError::Authentication),
        }
    }
}

/// Adding a key under a new name changes nothing for what earlier keys sealed.
pub proof fn law_rotation_retains_earlier_keys(
    ring: RingView,
    key_id: Seq<char>,
    key: Seq<u8>,
    header: HeaderView,
    payload: SealedView,
)
    requires
        payload.key_id != key_id,
    ensures
        opened_of(ring.rotated(key_id, key), header, payload) == opened_of(ring, header, payload),
{
}

/// What is wrong with a payload decides the error: a key that the ring does not hold comes
/// first, whatever the rest; then a nonce that is not 12 bytes in hexadecimal, or sealed
/// bytes that are not base64.
pub proof fn law_malformed_payload_is_refused(
    ring: RingView,
    header: HeaderView,
    payload: SealedView,
)
    ensures
        !ring.keys.contains_key(payload.key_id) ==> opened_of(ring, header, payload) == Err::<
            Seq<u8>,
            RelayCryptoError,
        >(RelayCryptoError::UnknownKey),
        ring.keys.contains_key(payload.key_id) && (!(encoding::unhex(payload.nonce) matches Some(n)
            && n.len() == 12) || encoding::unbase64(payload.ciphertext) is None) ==> opened_of(
            ring,
            header,
            payload,
        ) == Err::<Seq<u8>, RelayCryptoError>(RelayCryptoError::InvalidField),
{
}

/// Every ring that holds the key opens what it sealed, whichever key the ring seals with.
pub proof fn law_every_holder_of_the_key_opens(
    a: RingView,
    b: RingView,
    header: HeaderView,
    payload: SealedView,
)
    requires
        a.keys.contains_key(payload.key_id),
        b.keys.contains_key(payload.key_id),
        a.keys[payload.key_id] == b.keys[payload.key_id],
    ensures
        opened_of(a, header, payload) == opened_of(b, header, payload),
{
}

/// A sealed payload that reaches a ring under any header either finds no key of its name
/// there, or opens as the cipher says for that ring's key and that header's text, and
/// where the cipher refuses, the error is that authentication failed and no other.
pub proof fn law_sealed_payload_opens_or_fails_authentication(
    sealer: RingView,
    sealed_under: HeaderView,
    plaintext: Seq<u8>,
    nonce: Seq<u8>,
    ring: RingView,
    header: HeaderView,
)
    requires
        nonce.len() == 12,
    ensures
        ({
            let p = sealed_of(sealer, sealed_under, plaintext, nonce);
            let sealed = aes_seal(
                sealer.keys[sealer.current],
                nonce,
                encode_utf8(aad_of(sealed_under)),
                plaintext,
            );
            opened_of(ring, header, p) == if !ring.keys.contains_key(sealer.current) {
                Err::<Seq<u8>, RelayCryptoError>(RelayCryptoError::UnknownKey)
            } else {
                match aes_open(
                    ring.keys[sealer.current],
                    nonce,
                    encode_utf8(aad_of(header)),
                    sealed,
                ) {
                    Some(m) => Ok(m),
                    None => Err(RelayCryptoError::Authentication),
                }
            }
        }),
{
    encoding::law_hex_round_trip(nonce);
    encoding::law_base64_round_trip(
        aes_seal(
            sealer.keys[sealer.current],
            nonce,
            encode_utf8(aad_of(sealed_under)),
            plaintext,
        ),
    );
}

/// After a rotation, what is sealed carries the new key's name.
pub proof fn law_rotation_seals_with_new_key(
    ring: RingView,
    key_id: Seq<char>,
    key: Seq<u8>,
    header: HeaderView,
    plaintext: Seq<u8>,
    nonce: Seq<u8>,
)
    ensures
        sealed_of(ring.rotated(key_id, key), header, plaintext, nonce).key_id == key_id,
{
}

/// Whether `s` holds no NUL.
pub open spec fn no_nul(s: Seq<char>) -> bool {
    forall|i: int| 0 <= i < s.len() ==> #[trigger] s[i] != '\0'
}

/// The destination as it is bound.
pub open spec fn bound_destination(h: HeaderView) -> Seq<char> {
    match h.destination {
        Some(d) => d,
        None => Seq::empty(),
    }
}

proof fn lemma_field_split(a: Seq<char>, x: Seq<char>, b: Seq<char>, y: Seq<char>)
    requires
        no_nul(a),
        no_nul(b),
        a + seq!['\0'] + x == b + seq!['\0'] + y,
    ensures
        a == b,
        x == y,
{
    let s = a + seq!['\0'] + x;
    let t = b + seq!['\0'] + y;
    if a.len() < b.len() {
        assert(s[a.len() as int] == '\0');
        assert(t[a.len() as int] == b[a.len() as int]);
    } else if b.len() < a.len() {
        assert(t[b.len() as int] == '\0');
        assert(s[b.len() as int] == a[b.len() as int]);
    }
    assert(a =~= b) by {
        assert forall|i: int| 0 <= i < a.len() implies a[i] == b[i] by {
            assert(s[i] == a[i]);
            assert(t[i] == b[i]);
        }
    }
    assert(s.skip((a.len() + 1) as int) =~= x);
    assert(t.skip((b.len() + 1) as int) =~= y);
}

proof fn lemma_decimal_no_nul(n: nat)
    ensures
        no_nul(text::decimal_of(n)),
        text::decimal_of(n).len() > 0,
    decreases n,
{
    if n >= 10 {
        lemma_decimal_no_nul(n / 10);
    }
}

proof fn lemma_decimal_injective(m: nat, n: nat)
    requires
        text::decimal_of(m) == text::decimal_of(n),
    ensures
        m == n,
    decreases m,
{
    let s = text::decimal_of(m);
    lemma_decimal_no_nul(m / 10);
    lemma_decimal_no_nul(n / 10);
    if m >= 10 && n >= 10 {
        assert(s.drop_last() =~= text::decimal_of(m / 10));
        assert(s.drop_last() =~= text::decimal_of(n / 10));
        lemma_decimal_injective(m / 10, n / 10);
        assert(s.last() == text::digit((m % 10) as int));
        assert(s.last() == text::digit((n % 10) as int));
    } else if m < 10 && n < 10 {
        assert(s.last() == text::digit(m as int));
        assert(s.last() == text::digit(n as int));
    } else if m < 10 {
        assert(text::decimal_of(n).len() == text::decimal_of(n / 10).len() + 1);
    } else {
        assert(text::decimal_of(m).len() == text::decimal_of(m / 10).len() + 1);
    }
}

/// The bound text tells headers apart: two headers without NUL in their fields that are
/// bound alike agree in every field, an absent destination counting as an empty one.
pub proof fn law_aad_binds_every_field(g: HeaderView, h: HeaderView)
    requires
        no_nul(g.session_id) && no_nul(g.source) && no_nul(bound_destination(g)) && no_nul(g.group),
        no_nul(h.session_id) && no_nul(h.source) && no_nul(bound_destination(h)) && no_nul(h.group),
        aad_of(g) == aad_of(h),
    ensures
        g.session_id == h.session_id,
        g.source == h.source,
        bound_destination(g) == bound_destination(h),
        g.group == h.group,
        g.sequence == h.sequence,
        g.key_id == h.key_id,
{
    let z = seq!['\0'];
    let g6 = g.key_id;
    let h6 = h.key_id;
    let gs = text::decimal_of(g.sequence as nat);
    let hs = text::decimal_of(h.sequence as nat);
    let g5 = gs + z + g6;
    let h5 = hs + z + h6;
    let g4 = g.group + z + g5;
    let h4 = h.group + z + h5;
    let g3 = bound_destination(g) + z + g4;
    let h3 = bound_destination(h) + z + h4;
    let g2 = g.source + z + g3;
    let h2 = h.source + z + h3;
    let g1 = g.session_id + z + g2;
    let h1 = h.session_id + z + h2;
    let v = "clipsync-relay-v1"@ + z;
    assert(aad_of(g) =~= v + g1);
    assert(aad_of(h) =~= v + h1);
    assert((v + g1).skip(v.len() as int) =~= g1);
    assert((v + h1).skip(v.len() as int) =~= h1);
    lemma_field_split(g.session_id, g2, h.session_id, h2);
    lemma_field_split(g.source, g3, h.source, h3);
    lemma_field_split(bound_destination(g), g4, bound_destination(h), h4);
    lemma_field_split(g.group, g5, h.group, h5);
    lemma_decimal_no_nul(g.sequence as nat);
    lemma_decimal_no_nul(h.sequence as nat);
    lemma_field_split(gs, g6, hs, h6);
    lemma_decimal_injective(g.sequence as nat, h.sequence as nat);
}

/// A payload is sealed by the current key under its name, and every ring that has that key
/// under that name opens it again under the same header; the nonce is 24 digits.
pub proof fn law_sealing(
    ring: &RelayKeyRing,
    header: &RelayHeader<'_>,
    plaintext: &[u8],
    nonce: &[u8],
    sealed: EncryptedRelayPayload,
    other: &RelayKeyRing,
    opened: Result<Vec<u8>, RelayCryptoError>,
)
    requires
        call_ensures(
            RelayKeyRing::encrypt_with_nonce,
            (ring, header, plaintext, nonce),
            Ok(sealed),
        ),
        call_ensures(RelayKeyRing::decrypt, (other, header, &sealed), opened),
        ring@.keys.contains_key(ring@.current),
    ensures
        sealed.key_id@ == ring@.current,
        sealed.nonce@ == encoding::hex_of(nonce@),
        other@.keys.contains_key(ring@.current) && other@.keys[ring@.current]
            == ring@.keys[ring@.current] ==> opened is Ok && opened->Ok_0@ == plaintext@,
        !other@.keys.contains_key(ring@.current) ==> opened == Err::<Vec<u8>, RelayCryptoError>(
            RelayCryptoError::UnknownKey,
        ),
{
    if other@.keys.contains_key(ring@.current) && other@.keys[ring@.current]
        == ring@.keys[ring@.current] {
        law_every_holder_of_the_key_opens(ring@, other@, header@, sealed@);
    }
}

/// A payload of an unknown key, with a nonce that is not 12 bytes or with bytes that are not
/// base64, is refused for that.
pub proof fn law_opening(
    ring: &RelayKeyRing,
    header: &RelayHeader<'_>,
    p: &EncryptedRelayPayload,
    r: Result<Vec<u8>, RelayCryptoError>,
)
    requires
        call_ensures(RelayKeyRing::decrypt, (ring, header, p), r),
    ensures
        !ring@.keys.contains_key(p.key_id@) ==> r is Err && r->Err_0
            == RelayCryptoError::UnknownKey,
        ring@.keys.contains_key(p.key_id@) && p.nonce@.len() != 24 ==> r is Err && r->Err_0
            == RelayCryptoError::InvalidField,
        ring@.keys.contains_key(p.key_id@) && (forall|b: Seq<u8>|
            p.ciphertext@ != #[trigger] encoding::base64_of(b)) ==> r is Err && r->Err_0
            == RelayCryptoError::InvalidField,
        r is Ok && r->Ok_0@.len() <= AEAD_LIMIT ==> ring@.keys.contains_key(p.key_id@) && exists|
            n: Seq<u8>,
        |
            n.len() == 12 && p.ciphertext@ == encoding::base64_of(
                #[trigger] aes_seal(
                    ring@.keys[p.key_id@],
                    n,
                    encode_utf8(aad_of(header@)),
                    r->Ok_0@,
                ),
            ),
{
    if r is Ok && r->Ok_0@.len() <= AEAD_LIMIT {
        let n = encoding::unhex(p.nonce@)->Some_0;
        assert(n.len() == 12);
        assert(p.ciphertext@ == encoding::base64_of(
            aes_seal(ring@.keys[p.key_id@], n, encode_utf8(aad_of(header@)), r->Ok_0@),
        ));
    }
}

/// The text that a payload is bound to is the mark of the version, then session, source,
/// destination, group, number and key, each after a NUL.
pub proof fn law_bound_text(header: &RelayHeader<'_>, r: String)
    requires
        call_ensures(aad, (header,), r),
    ensures
        r@ == "clipsync-relay-v1"@ + (seq!['\0'] + header.session_id@) + (seq!['\0']
            + header.source@) + (seq!['\0'] + (if header.destination is Some {
            header.destination->Some_0@
        } else {
            Seq::empty()
        })) + (seq!['\0'] + header.group@) + (seq!['\0'] + text::decimal_of(
            header.sequence as nat,
        )) + (seq!['\0'] + header.key_id@),
{
    assert(header@.destination is Some <==> header.destination is Some);
    assert(r@ =~= "clipsync-relay-v1"@ + (seq!['\0'] + header.session_id@) + (seq!['\0']
        + header.source@) + (seq!['\0'] + (if header.destination is Some {
        header.destination->Some_0@
    } else {
        Seq::empty()
    })) + (seq!['\0'] + header.group@) + (seq!['\0'] + text::decimal_of(header.sequence as nat)) + (
    seq!['\0'] + header.key_id@));
}

/// A key may be called by 1 to 64 ASCII letters, digits, underscores and hyphens; a ring with
/// one key seals with it, and a key that is added seals from then on while the others still
/// open.
pub proof fn law_keys(
    key_id: &str,
    key: [u8; 32],
    made: Result<RelayKeyRing, RelayCryptoError>,
    ring: &mut RelayKeyRing,
    added: Result<(), RelayCryptoError>,
    other: Seq<char>,
)
    requires
        call_ensures(RelayKeyRing::new, (key_id, key), made),
        call_ensures(RelayKeyRing::rotate, (ring, key_id, key), added),
    ensures
        made is Ok <==> added is Ok,
        made is Ok <==> 1 <= key_id@.len() <= 64 && forall|i: int|
            0 <= i < key_id@.len() ==> {
                let c = #[trigger] key_id@[i];
                ('a' <= c <= 'z') || ('A' <= c <= 'Z') || ('0' <= c <= '9') || c == '-' || c == '_'
            },
        made is Ok ==> made->Ok_0@.current == key_id@ && made->Ok_0@.keys.contains_key(key_id@)
            && made->Ok_0@.keys[key_id@] == key@ && (other != key_id@
            ==> !made->Ok_0@.keys.contains_key(other)),
        added is Ok ==> final(ring)@.current == key_id@ && final(ring)@.keys.contains_key(key_id@)
            && final(ring)@.keys[key_id@] == key@,
        added is Ok && other != key_id@ ==> (final(ring)@.keys.contains_key(other)
            <==> old(ring)@.keys.contains_key(other)) && (old(ring)@.keys.contains_key(other)
            ==> final(ring)@.keys[other] == old(ring)@.keys[other]),
        added is Err ==> final(ring)@ == old(ring)@,
{
    if is_key_id(key_id@) {
        assert forall|i: int| 0 <= i < key_id@.len() implies {
            let c = #[trigger] key_id@[i];
            ('a' <= c <= 'z') || ('A' <= c <= 'Z') || ('0' <= c <= '9') || c == '-' || c == '_'
        } by {
            assert(is_key_id_char(key_id@[i]));
        }
    } else if 1 <= key_id@.len() <= 64 {
        let i = choose|i: int| 0 <= i < key_id@.len() && !is_key_id_char(#[trigger] key_id@[i]);
        assert(!is_key_id_char(key_id@[i]));
    }
}

/// A line of key material is a name, a group and 32 bytes in hexadecimal; it gives those
/// three.
pub proof fn law_key_lines(
    value: &str,
    r: Result<(String, GroupId, [u8; 32]), RelayCryptoError>,
)
    requires
        call_ensures(parse_key_line, (value,), r),
    ensures
        r is Ok ==> {
            let w = text::words_of(value@);
            &&& w.len() == 3
            &&& r->Ok_0.0@ == w[0]
            &&& r->Ok_0.1@ == w[1]
            &&& encoding::unhex(w[2]) == Some(r->Ok_0.2@)
            &&& 1 <= w[0].len() <= 64
        },
        text::words_of(value@).len() != 3 ==> r is Err && r->Err_0 == RelayCryptoError::KeyMaterial,
{
}

/// A reference names a variable after `env:`, a file after `file:`, or a file as it is; a
/// file is its owner's alone where the six lowest bits of its mode are clear.
pub proof fn law_key_places(
    reference: &str,
    r: KeySource,
    rest: Seq<char>,
    mode: u32,
    own: bool,
)
    requires
        call_ensures(key_source, (reference,), r),
        call_ensures(is_owner_only, (mode,), own),
    ensures
        reference@ == "env:"@ + rest ==> r is Env && r->Env_0@ == rest,
        reference@ == "file:"@ + rest ==> r is File && r->File_0@ == rest,
        r is File && !text::has_prefix(reference@, "file:"@) ==> r->File_0@ == reference@,
        own <==> mode & 0o77 == 0,
{
    reveal_strlit("env:");
    reveal_strlit("file:");
    assert((mode & 0o77 == 0) == (mode % 64 == 0)) by (bit_vector);
    if reference@ == "env:"@ + rest {
        assert(reference@.take(4) =~= "env:"@);
        assert(reference@.skip(4) =~= rest);
    }
    if reference@ == "file:"@ + rest {
        assert(reference@.take(5) =~= "file:"@);
        assert(reference@.skip(5) =~= rest);
        assert(reference@[0] == 'f' && "env:"@[0] == 'e');
        assert(reference@.take(4)[0] == 'f');
    }
}

/// An envelope's header is made of the envelope's own parts.
pub proof fn law_headers(e: &OutboundEnvelope, r: RelayHeader<'_>)
    requires
        call_ensures(OutboundEnvelope::header, (e,), r),
    ensures
        r.session_id@ == e.session_id@ && r.source@ == e.source.0@ && r.group@ == e.group@
            && r.sequence == e.sequence && r.key_id@ == e.payload.key_id@,
        r.destination is Some <==> e.destination is Some,
        r.destination is Some ==> r.destination->Some_0@ == e.destination->Some_0.0@,
{
    assert(r@.session_id == r.session_id@);
    assert(r@.destination is Some <==> r.destination is Some);
}

proof fn lemma_ring_lines(lines: Seq<Seq<char>>)
    requires
        ring_of(lines) is Ok,
    ensures
        lines.len() > 0,
        ({
            let g = ring_of(lines)->Ok_0;
            &&& forall|i: int|
                0 <= i < lines.len() ==> {
                    let w = text::words_of(#[trigger] lines[i]);
                    w.len() == 3 && w[1] == g.group && g.ring.keys.contains_key(w[0])
                }
            &&& forall|k: Seq<char>| #[trigger]
                g.ring.keys.contains_key(k) ==> exists|i: int|
                    0 <= i < lines.len() && text::words_of(#[trigger] lines[i])[0] == k
                        && encoding::unhex(text::words_of(lines[i])[2]) == Some(g.ring.keys[k])
            &&& g.ring.current == text::words_of(lines.last())[0]
            &&& encoding::unhex(text::words_of(lines.last())[2]) == Some(
                g.ring.keys[g.ring.current],
            )
        }),
    decreases lines.len(),
{
    if lines.len() > 1 {
        let d = lines.drop_last();
        lemma_ring_lines(d);
        let before = ring_of(d)->Ok_0;
        let g = ring_of(lines)->Ok_0;
        assert forall|i: int| 0 <= i < lines.len() implies {
            let w = text::words_of(#[trigger] lines[i]);
            w.len() == 3 && w[1] == g.group && g.ring.keys.contains_key(w[0])
        } by {
            if i < d.len() {
                assert(d[i] == lines[i]);
            } else {
                assert(lines[i] == lines.last());
            }
        }
        assert forall|k: Seq<char>| #[trigger] g.ring.keys.contains_key(k) implies exists|i: int|
            0 <= i < lines.len() && text::words_of(#[trigger] lines[i])[0] == k && encoding::unhex(
                text::words_of(lines[i])[2],
            ) == Some(g.ring.keys[k]) by {
            if k == g.ring.current {
                assert(text::words_of(lines[lines.len() - 1])[0] == k);
            } else {
                assert(before.ring.keys.contains_key(k));
                let i = choose|i: int|
                    0 <= i < d.len() && text::words_of(#[trigger] d[i])[0] == k && encoding::unhex(
                        text::words_of(d[i])[2],
                    ) == Some(before.ring.keys[k]);
                assert(lines[i] == d[i]);
            }
        }
    } else {
        assert(lines[0] == lines.last());
        let g = ring_of(lines)->Ok_0;
        assert(text::words_of(lines[0])[0] == g.ring.current);
    }
}

/// Whether a line has the three words of a key of `group`.
pub open spec fn is_good_key_line(line: Seq<char>, group: Seq<char>) -> bool {
    let w = text::words_of(line);
    &&& w.len() == 3
    &&& 1 <= w[0].len() <= 64
    &&& forall|i: int|
        0 <= i < w[0].len() ==> ('0' <= #[trigger] w[0][i] <= '9') || ('a' <= w[0][i] <= 'z') || (
        'A' <= w[0][i] <= 'Z') || w[0][i] == '_' || w[0][i] == '-'
    &&& w[1] == group
    &&& encoding::unhex(w[2]) is Some && encoding::unhex(w[2])->Some_0.len() == 32
}

proof fn lemma_good_key_line(line: Seq<char>, group: Seq<char>)
    requires
        is_good_key_line(line, group),
    ensures
        key_line(line) is Ok,
        key_line(line)->Ok_0.group == group,
{
    let w = text::words_of(line);
    text::lemma_words_not_blank(line);
    assert forall|i: int| 0 <= i < w[0].len() implies is_key_id_char(#[trigger] w[0][i]) by {}
}

proof fn lemma_good_ring(lines: Seq<Seq<char>>, group: Seq<char>)
    requires
        lines.len() > 0,
        forall|i: int| 0 <= i < lines.len() ==> is_good_key_line(#[trigger] lines[i], group),
    ensures
        ring_of(lines) is Ok,
        ring_of(lines)->Ok_0.group == group,
    decreases lines.len(),
{
    lemma_good_key_line(lines[lines.len() - 1], group);
    if lines.len() > 1 {
        let d = lines.drop_last();
        assert forall|i: int| 0 <= i < d.len() implies is_good_key_line(#[trigger] d[i], group) by {
            assert(d[i] == lines[i]);
        }
        lemma_good_ring(d, group);
    }
}

/// A key file whose lines are all keys of one group makes a ring of that group: it holds each
/// line's key, no other, and seals with the last. A file without lines makes none.
pub proof fn law_key_files(
    material: &str,
    r: Result<(RelayKeyRing, GroupId), RelayCryptoError>,
    first: Result<(String, GroupId, [u8; 32]), RelayCryptoError>,
    group: Seq<char>,
    i: int,
    k: Seq<char>,
)
    requires
        call_ensures(load_key_ring, (material,), r),
        call_ensures(load_key_material, (material,), first),
    ensures
        ({
            let l = text::lines_of(material@);
            &&& l.len() == 0 ==> r is Err && first is Err
            &&& l.len() > 0 && (forall|i: int|
                0 <= i < l.len() ==> is_good_key_line(#[trigger] l[i], group)) ==> r is Ok
                && r->Ok_0.1@ == group
            &&& r is Ok && 0 <= i < l.len() ==> text::words_of(l[i]).len() == 3 && text::words_of(
                l[i],
            )[1] == r->Ok_0.1@ && r->Ok_0.0@.keys.contains_key(text::words_of(l[i])[0])
            &&& r is Ok && r->Ok_0.0@.keys.contains_key(k) ==> exists|i: int|
                0 <= i < l.len() && text::words_of(#[trigger] l[i])[0] == k && encoding::unhex(
                    text::words_of(l[i])[2],
                ) == Some(r->Ok_0.0@.keys[k])
            &&& r is Ok ==> r->Ok_0.0@.current == text::words_of(l.last())[0]
            &&& l.len() > 0 && is_good_key_line(l[0], group) ==> first is Ok && first->Ok_0.0@
                == text::words_of(l[0])[0] && first->Ok_0.1@ == group && Some(first->Ok_0.2@)
                == encoding::unhex(text::words_of(l[0])[2])
        }),
{
    let l = text::lines_of(material@);
    if r is Ok {
        lemma_ring_lines(l);
    }
    if l.len() > 0 && (forall|i: int| 0 <= i < l.len() ==> is_good_key_line(#[trigger] l[i], group)) {
        lemma_good_ring(l, group);
    }
    if l.len() > 0 && is_good_key_line(l[0], group) {
        lemma_good_key_line(l[0], group);
    }
}

/// A key's name is from 1 to 64 letters, digits, underscores and hyphens.
pub proof fn law_key_names(key_id: &str, r: Result<(), RelayCryptoError>)
    requires
        call_ensures(validate_key_id, (key_id,), r),
    ensures
        r is Ok <==> 1 <= key_id@.len() <= 64 && forall|i: int|
            0 <= i < key_id@.len() ==> ('0' <= #[trigger] key_id@[i] <= '9') || ('a' <= key_id@[i]
                <= 'z') || ('A' <= key_id@[i] <= 'Z') || key_id@[i] == '_' || key_id@[i] == '-',
        r is Err ==> r->Err_0 == RelayCryptoError::InvalidField,
{
    if r is Ok {
        assert forall|i: int| 0 <= i < key_id@.len() implies ('0' <= #[trigger] key_id@[i] <= '9')
            || ('a' <= key_id@[i] <= 'z') || ('A' <= key_id@[i] <= 'Z') || key_id@[i] == '_'
            || key_id@[i] == '-' by {
            assert(is_key_id_char(key_id@[i]));
        }
    }
}

/// What a ring seals it opens again under the same header, and it names the ring's own key.
pub proof fn law_sealed_is_opened(
    ring: &RelayKeyRing,
    header: &RelayHeader<'_>,
    plaintext: &[u8],
    sealed: Result<EncryptedRelayPayload, RelayCryptoError>,
    payload: &EncryptedRelayPayload,
    opened: Result<Vec<u8>, RelayCryptoError>,
)
    requires
        call_ensures(RelayKeyRing::encrypt, (ring, header, plaintext), sealed),
        encryptable(plaintext@.len()),
        ring.wf(),
        sealed is Ok ==> *payload == sealed->Ok_0,
        call_ensures(RelayKeyRing::decrypt, (ring, header, payload), opened),
    ensures
        sealed is Ok ==> opened is Ok && opened->Ok_0@ == plaintext@ && payload.key_id@
            == ring@.current,
        sealed is Err ==> sealed->Err_0 == RelayCryptoError::Authentication,
{
}

} // verus!
