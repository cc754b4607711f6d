//! The relay: devices of one group exchange messages through it, and nobody else does.
//!
//! Tokens say who a connection is; the relay keeps only their digests. Queues belong to
//! the caller, under each session's identifier.

use vstd::prelude::*;
use vstd::utf8::encode_utf8;

use crate::auth::{
    envelope_verdict, seen_after, AuthorizationError, GroupAuthorizer, GroupId, RelayEnvelope,
    ReplayProtector, SessionId,
};
use crate::clipboard::sha256_hex;
use crate::config::{Config, LimitsConfig, SecurityConfig, Transport};
use crate::hashing;
use crate::entropy;
use crate::protocol::{is_content_from, opt_id, DeviceId, Message, MessageView, PROTOCOL_VERSION};
use crate::relay_crypto::{is_owner_only, owner_only};
use crate::server::{Admission, AdmissionView, IpAddress};
use crate::table;
use crate::table::Table;
use crate::text;

verus! {

/// Where the relay listens by default.
pub const DEFAULT_BIND: &'static str = "0.0.0.0:9443";

/// How many messages a session's queue holds by default.
pub const DEFAULT_QUEUE_CAPACITY: usize = 64;

/// How many seconds a connection has for its first message.
pub const HANDSHAKE_TIMEOUT: u64 = 10;

/// Who a connection is.
#[derive(Debug, PartialEq, Eq)]
pub struct RelayIdentity {
    pub account_id: String,
    pub device_id: DeviceId,
    pub session_id: SessionId,
    pub group_id: GroupId,
}

/// The contents of a `RelayIdentity`.
pub struct IdentityView {
    pub account_id: Seq<char>,
    pub device_id: Seq<char>,
    pub session_id: Seq<char>,
    pub group_id: Seq<char>,
}

impl View for RelayIdentity {
    type V = IdentityView;

    open spec fn view(&self) -> IdentityView {
        IdentityView {
            account_id: self.account_id@,
            device_id: self.device_id@,
            session_id: self.session_id@,
            group_id: self.group_id@,
        }
    }
}

impl Clone for RelayIdentity {
    fn clone(&self) -> (r: Self)
        ensures
            r == *self,
    {
        RelayIdentity {
            account_id: self.account_id.clone(),
            device_id: self.device_id.clone(),
            session_id: self.session_id.clone(),
            group_id: self.group_id.clone(),
        }
    }
}

/// Whether two identities are one device of one account in one group.
pub open spec fn is_same_device(a: IdentityView, b: IdentityView) -> bool {
    a.account_id == b.account_id && a.device_id == b.device_id && a.group_id == b.group_id
}

/// Whether two identities are one device of one account in one group.
pub fn same_device(left: &RelayIdentity, right: &RelayIdentity) -> (r: bool)
    ensures
        r == is_same_device(left@, right@),
{
    text::same(left.account_id.as_str(), right.account_id.as_str()) && text::same(
        left.device_id.as_str(),
        right.device_id.as_str(),
    ) && text::same(left.group_id.as_str(), right.group_id.as_str())
}

/// The token is not known.
#[derive(Debug, Clone, Copy, PartialEq, Eq, Structural)]
pub struct AuthError;

impl AuthError {
    pub fn to_string(&self) -> (r: String)
        ensures
            r@ == "token rejected"@,
    {
        "token rejected".to_owned()
    }
}

/// The identities of a token file, under the digests of their tokens.
pub struct FileTokenProvider {
    tokens: Table<RelayIdentity>,
}

impl View for FileTokenProvider {
    type V = Map<Seq<char>, IdentityView>;

    /// The identity of each token, under the digest of the token.
    closed spec fn view(&self) -> Map<Seq<char>, IdentityView> {
        self.tokens@.map_values(|i: RelayIdentity| i@)
    }
}

/// Whether a line of a token file is blank or a comment.
pub open spec fn is_skipped(line: Seq<char>) -> bool {
    text::trim_of(line).len() == 0 || text::trim_of(line)[0] == '#'
}

/// The key that a token is kept under.
pub open spec fn token_key(token: Seq<char>) -> Seq<char> {
    hashing::hash_of(encode_utf8(token))
}

/// The error for line `n` of a token file.
pub open spec fn line_error(n: nat, what: Seq<char>) -> Seq<char> {
    "token file line "@ + text::decimal_of(n) + what
}

/// The identities that the lines of a token file hold, `token account device session
/// group` each, or what is wrong with the first bad line.
pub open spec fn tokens_of(lines: Seq<Seq<char>>) -> Result<Map<Seq<char>, IdentityView>, Seq<char>>
    decreases lines.len(),
{
    if lines.len() == 0 {
        Ok(Map::empty())
    } else {
        match tokens_of(lines.drop_last()) {
            Err(e) => Err(e),
            Ok(m) => {
                let f = text::words_of(lines.last());
                if is_skipped(lines.last()) {
                    Ok(m)
                } else if f.len() != 5 {
                    Err(line_error(lines.len(), ": expected 5 fields"@))
                } else if text::trim_of(f[3]).len() == 0 {
                    Err(line_error(lines.len(), ": empty session"@))
                } else if text::trim_of(f[4]).len() == 0 {
                    Err(line_error(lines.len(), ": empty group"@))
                } else if m.contains_key(token_key(f[0])) {
                    Err(line_error(lines.len(), ": duplicate token"@))
                } else {
                    Ok(
                        m.insert(
                            token_key(f[0]),
                            IdentityView {
                                account_id: f[1],
                                device_id: f[2],
                                session_id: f[3],
                                group_id: f[4],
                            },
                        ),
                    )
                }
            },
        }
    }
}

/// What a whole token file holds: at least one identity.
pub open spec fn provider_of(contents: Seq<char>) -> Result<
    Map<Seq<char>, IdentityView>,
    Seq<char>,
> {
    match tokens_of(text::lines_of(contents)) {
        Err(e) => Err(e),
        Ok(m) => if m == Map::<Seq<char>, IdentityView>::empty() {
            Err("token file contains no credentials"@)
        } else {
            Ok(m)
        },
    }
}

/// What a token file comes to, with its permission bits: it must be its owner's alone.
pub open spec fn file_provider(mode: u32, contents: Seq<char>) -> Result<
    Map<Seq<char>, IdentityView>,
    Seq<char>,
> {
    if !owner_only(mode) {
        Err("token file must not be readable by group or other"@)
    } else {
        provider_of(contents)
    }
}

/// Whether every record of a token file has five fields, and no two have tokens of one
/// digest.
pub open spec fn records_fit(lines: Seq<Seq<char>>) -> bool {
    &&& forall|i: int|
        0 <= i < lines.len() && !is_skipped(#[trigger] lines[i]) ==> text::words_of(lines[i]).len()
            == 5
    &&& forall|i: int, j: int|
        0 <= i < j < lines.len() && !is_skipped(#[trigger] lines[i]) && !is_skipped(
            #[trigger] lines[j],
        ) ==> record_key(lines[i]) != record_key(lines[j])
}

/// The key that a record's identity is kept under.
pub open spec fn record_key(line: Seq<char>) -> Seq<char> {
    token_key(text::words_of(line)[0])
}

/// The identity that a record holds.
pub open spec fn record_identity(line: Seq<char>) -> IdentityView {
    let f = text::words_of(line);
    IdentityView { account_id: f[1], device_id: f[2], session_id: f[3], group_id: f[4] }
}

/// Whether a line of `lines` is a record kept under `key`.
pub open spec fn has_record(lines: Seq<Seq<char>>, key: Seq<char>) -> bool {
    exists|i: int|
        0 <= i < lines.len() && !is_skipped(#[trigger] lines[i]) && record_key(lines[i]) == key
}

proof fn lemma_tokens(lines: Seq<Seq<char>>)
    ensures
        tokens_of(lines) is Ok <==> records_fit(lines),
        tokens_of(lines) matches Ok(m) ==> {
            &&& forall|k: Seq<char>| #[trigger] m.contains_key(k) <==> has_record(lines, k)
            &&& forall|i: int|
                0 <= i < lines.len() && !is_skipped(#[trigger] lines[i]) ==> m[record_key(lines[i])]
                    == record_identity(lines[i])
        },
    decreases lines.len(),
{
    if lines.len() > 0 {
        let d = lines.drop_last();
        let last = lines.last();
        let n = lines.len() - 1;
        lemma_tokens(d);
        text::lemma_words_not_blank(last);
        assert(lines[n] == last);
        assert forall|i: int| 0 <= i < d.len() implies #[trigger] d[i] == lines[i] by {}
        if records_fit(lines) {
            assert(records_fit(d));
        }
        assert forall|k: Seq<char>| has_record(lines, k) <==> has_record(d, k) || (!is_skipped(
            last,
        ) && record_key(last) == k) by {
            if has_record(lines, k) {
                let i = choose|i: int|
                    0 <= i < lines.len() && !is_skipped(#[trigger] lines[i]) && record_key(
                        lines[i],
                    ) == k;
                if i < n {
                    assert(d[i] == lines[i]);
                }
            }
            if has_record(d, k) {
                let i = choose|i: int|
                    0 <= i < d.len() && !is_skipped(#[trigger] d[i]) && record_key(d[i]) == k;
                assert(lines[i] == d[i]);
            }
        }
        if tokens_of(d) is Ok {
            let m = tokens_of(d)->Ok_0;
            if !is_skipped(last) && text::words_of(last).len() == 5 {
                assert(m.contains_key(record_key(last)) <==> has_record(d, record_key(last)));
                if has_record(d, record_key(last)) {
                    let i = choose|i: int|
                        0 <= i < d.len() && !is_skipped(#[trigger] d[i]) && record_key(d[i])
                            == record_key(last);
                    assert(!is_skipped(lines[i]) && !is_skipped(lines[n]));
                    assert(!records_fit(lines));
                } else {
                    assert forall|i: int|
                        0 <= i < lines.len() && !is_skipped(
                            #[trigger] lines[i],
                        ) implies text::words_of(lines[i]).len() == 5 by {
                        if i < n {
                            assert(d[i] == lines[i]);
                        }
                    }
                    assert forall|i: int, j: int|
                        0 <= i < j < lines.len() && !is_skipped(#[trigger] lines[i]) && !is_skipped(
                            #[trigger] lines[j],
                        ) implies record_key(lines[i]) != record_key(lines[j]) by {
                        assert(d[i] == lines[i]);
                        if j < n {
                            assert(d[j] == lines[j]);
                        }
                    }
                    assert(records_fit(lines));
                    assert forall|i: int|
                        0 <= i < lines.len() && !is_skipped(
                            #[trigger] lines[i],
                        ) implies tokens_of(lines)->Ok_0[record_key(lines[i])] == record_identity(
                        lines[i],
                    ) by {
                        if i < n {
                            assert(d[i] == lines[i]);
                            assert(has_record(d, record_key(d[i])));
                        }
                    }
                }
            } else if is_skipped(last) {
                assert forall|i: int|
                    0 <= i < lines.len() && !is_skipped(
                        #[trigger] lines[i],
                    ) implies text::words_of(lines[i]).len() == 5 by {
                    if i < n {
                        assert(d[i] == lines[i]);
                    }
                }
                assert forall|i: int, j: int|
                    0 <= i < j < lines.len() && !is_skipped(#[trigger] lines[i]) && !is_skipped(
                        #[trigger] lines[j],
                    ) implies record_key(lines[i]) != record_key(lines[j]) by {
                    assert(d[i] == lines[i]);
                    assert(d[j] == lines[j]);
                }
                assert(records_fit(lines));
                assert forall|i: int| 0 <= i < lines.len() && !is_skipped(
                    #[trigger] lines[i],
                ) implies tokens_of(lines)->Ok_0[record_key(lines[i])] == record_identity(
                    lines[i],
                ) by {
                    assert(d[i] == lines[i]);
                }
            }
        }
    }
}

/// A token file is taken exactly where it is its owner's alone, holds a record, and each of
/// its records has five fields and a token of a digest of its own. Then a token is known
/// exactly where a record has its digest, and it is that record's identity.
pub proof fn law_token_file(mode: u32, contents: Seq<char>, token: Seq<char>, i: int)
    ensures
        ({
            let lines = text::lines_of(contents);
            let r = file_provider(mode, contents);
            &&& r is Ok <==> owner_only(mode) && records_fit(lines) && exists|k: int|
                0 <= k < lines.len() && !is_skipped(#[trigger] lines[k])
            &&& r matches Ok(m) ==> {
                &&& m.contains_key(token_key(token)) <==> has_record(lines, token_key(token))
                &&& 0 <= i < lines.len() && !is_skipped(lines[i]) && text::words_of(lines[i])[0]
                    == token ==> m.contains_key(token_key(token)) && m[token_key(token)]
                    == record_identity(lines[i])
            }
        }),
{
    let lines = text::lines_of(contents);
    lemma_tokens(lines);
    if tokens_of(lines) is Ok {
        let m = tokens_of(lines)->Ok_0;
        if exists|k: int| 0 <= k < lines.len() && !is_skipped(#[trigger] lines[k]) {
            let k = choose|k: int| 0 <= k < lines.len() && !is_skipped(#[trigger] lines[k]);
            assert(has_record(lines, record_key(lines[k])));
            assert(m.contains_key(record_key(lines[k])));
        } else {
            assert forall|k: Seq<char>| !m.contains_key(k) by {}
            assert(m =~= Map::<Seq<char>, IdentityView>::empty());
        }
        if 0 <= i < lines.len() && !is_skipped(lines[i]) {
            assert(has_record(lines, record_key(lines[i])));
        }
    }
}

proof fn lemma_tokens_error(lines: Seq<Seq<char>>, n: int)
    requires
        0 <= n <= lines.len(),
        tokens_of(lines.take(n)) is Err,
    ensures
        tokens_of(lines) == tokens_of(lines.take(n)),
    decreases lines.len() - n,
{
    if n == lines.len() {
        assert(lines.take(n) =~= lines);
    } else {
        assert(lines.take(n + 1).drop_last() =~= lines.take(n));
        lemma_tokens_error(lines, n + 1);
    }
}

/// The message for line `n` of a token file.
fn line_message(n: usize, what: &str) -> (r: String)
    ensures
        r@ == line_error(n as nat, what@),
{
    let mut r = text::join("token file line ", text::decimal(n as u64).as_str());
    r.append(what);
    r
}

/// The members of each group, by the identities of the tokens.
pub open spec fn is_roster(
    groups: Map<Seq<char>, Set<Seq<char>>>,
    tokens: Map<Seq<char>, IdentityView>,
) -> bool {
    &&& forall|g: Seq<char>| #[trigger]
        groups.contains_key(g) <==> exists|t: Seq<char>|
            tokens.contains_key(t) && (#[trigger] tokens[t]).group_id == g
    &&& forall|g: Seq<char>, d: Seq<char>|
        groups.contains_key(g) ==> (#[trigger] groups[g].contains(d) <==> exists|t: Seq<char>|
            tokens.contains_key(t) && (#[trigger] tokens[t]).group_id == g && tokens[t].device_id
                == d)
}

impl FileTokenProvider {
    pub closed spec fn wf(&self) -> bool {
        self.tokens.wf()
    }

    /// Reads the contents of a token file. The session of a line is kept for the file's
    /// sake only: every connection gets a session of its own.
    pub fn from_text(contents: &str) -> (r: Result<Self, String>)
        ensures
            match r {
                Ok(p) => p.wf() && provider_of(contents@) == Ok::<
                    Map<Seq<char>, IdentityView>,
                    Seq<char>,
                >(p@),
                Err(e) => provider_of(contents@) == Err::<
                    Map<Seq<char>, IdentityView>,
                    Seq<char>,
                >(e@),
            },
    {
        let l = text::lines(contents);
        let ghost lines = text::lines_of(contents@);
        assert(text::views(l@).len() == l@.len());
        let mut p = FileTokenProvider { tokens: Table::new() };
        let mut i: usize = 0;
        assert(p@ =~= Map::<Seq<char>, IdentityView>::empty());
        while i < l.len()
            invariant
                i <= l@.len(),
                lines == text::lines_of(contents@),
                lines == text::views(l@),
                lines.len() == l@.len(),
                p.wf(),
                tokens_of(lines.take(i as int)) == Ok::<Map<Seq<char>, IdentityView>, Seq<char>>(
                    p@,
                ),
            decreases l@.len() - i,
        {
            let ghost t = lines.take(i + 1);
            let ghost line = lines[i as int];
            assert(t.drop_last() =~= lines.take(i as int));
            assert(t.last() == line);
            assert(line == l@[i as int]@);
            let trimmed = text::trim_chars(&text::to_chars(l[i].as_str()));
            if trimmed.len() == 0 || trimmed[0] == '#' {
                assert(is_skipped(line));
                i = i + 1;
                continue;
            }
            let number: usize = i + 1;
            let fields = text::words(l[i].as_str());
            let ghost f = text::words_of(line);
            assert(text::views(fields@) == f);
            assert(f.len() == fields@.len());
            if fields.len() != 5 {
                proof {
                    lemma_tokens_error(lines, i + 1);
                }
                return Err(line_message(number, ": expected 5 fields"));
            }
            assert(fields@[0]@ == f[0] && fields@[1]@ == f[1] && fields@[2]@ == f[2]
                && fields@[3]@ == f[3] && fields@[4]@ == f[4]) by {
                assert(text::views(fields@)[0] == fields@[0]@);
                assert(text::views(fields@)[1] == fields@[1]@);
                assert(text::views(fields@)[2] == fields@[2]@);
                assert(text::views(fields@)[3] == fields@[3]@);
                assert(text::views(fields@)[4] == fields@[4]@);
            }
            let session_id = match SessionId::from_string(fields[3].as_str()) {
                Some(s) => s,
                None => {
                    proof {
                        lemma_tokens_error(lines, i + 1);
                    }
                    return Err(line_message(number, ": empty session"));
                },
            };
            let group_id = match GroupId::from_string(fields[4].as_str()) {
                Some(g) => g,
                None => {
                    proof {
                        lemma_tokens_error(lines, i + 1);
                    }
                    return Err(line_message(number, ": empty group"));
                },
            };
            let identity = RelayIdentity {
                account_id: fields[1].clone(),
                device_id: DeviceId(fields[2].clone()),
                session_id,
                group_id,
            };
            let key = sha256_hex(fields[0].as_str().as_bytes());
            if p.tokens.contains_key(key.as_str()) {
                proof {
                    assert(p@.contains_key(key@));
                    lemma_tokens_error(lines, i + 1);
                }
                return Err(line_message(number, ": duplicate token"));
            }
            let ghost before = p@;
            p.tokens.insert(key, identity);
            assert(p@ =~= before.insert(key@, identity@));
            i = i + 1;
        }
        assert(lines.take(i as int) =~= lines);
        if p.tokens.len() == 0 {
            proof {
                assert(p.tokens@.dom() =~= Set::<Seq<char>>::empty());
                assert(p@ =~= Map::<Seq<char>, IdentityView>::empty());
            }
            return Err("token file contains no credentials".to_owned());
        }
        proof {
            if p@ == Map::<Seq<char>, IdentityView>::empty() {
                assert(p.tokens@.dom() =~= p@.dom());
                assert(p.tokens@.dom() =~= Set::<Seq<char>>::empty());
                assert(false);
            }
        }
        Ok(p)
    }

    /// Reads the contents of a token file with those permission bits.
    pub fn from_file(mode: u32, contents: &str) -> (r: Result<Self, String>)
        ensures
            match r {
                Ok(p) => p.wf() && file_provider(mode, contents@) == Ok::<
                    Map<Seq<char>, IdentityView>,
                    Seq<char>,
                >(p@),
                Err(e) => file_provider(mode, contents@) == Err::<
                    Map<Seq<char>, IdentityView>,
                    Seq<char>,
                >(e@),
            },
    {
        if !is_owner_only(mode) {
            return Err("token file must not be readable by group or other".to_owned());
        }
        Self::from_text(contents)
    }

    /// Every device in the group that its token names.
    pub fn authorizer(&self) -> (r: GroupAuthorizer)
        requires
            self.wf(),
        ensures
            r.wf(),
            is_roster(r@, self@),
    {
        let n: usize = self.tokens.len();
        let mut r = GroupAuthorizer::default();
        let mut i: usize = 0;
        let ghost l = self.tokens.list();
        while i < n
            invariant
                i <= n,
                l == self.tokens.list(),
                n == l.len(),
                r.wf(),
                forall|g: Seq<char>| #[trigger]
                    r@.contains_key(g) <==> exists|k: int|
                        0 <= k < i && (#[trigger] l[k]).1.group_id@ == g,
                forall|g: Seq<char>, d: Seq<char>|
                    r@.contains_key(g) ==> (#[trigger] r@[g].contains(d) <==> exists|k: int|
                        0 <= k < i && (#[trigger] l[k]).1.group_id@ == g && l[k].1.device_id@ == d),
            decreases n - i,
        {
            let identity = self.tokens.value_at(i);
            let ghost before = r@;
            r.add_member(identity.group_id.clone(), identity.device_id.clone());
            proof {
                let gi = identity.group_id@;
                let di = identity.device_id@;
                assert(l[i as int].1 == *identity);
                assert forall|g: Seq<char>| #[trigger] r@.contains_key(g) <==> exists|k: int|
                    0 <= k < i + 1 && (#[trigger] l[k]).1.group_id@ == g by {
                    if r@.contains_key(g) {
                        if g == gi {
                            assert(l[i as int].1.group_id@ == g);
                        } else {
                            assert(before.contains_key(g));
                        }
                    }
                    if exists|k: int| 0 <= k < i + 1 && (#[trigger] l[k]).1.group_id@ == g {
                        let k = choose|k: int| 0 <= k < i + 1 && (#[trigger] l[k]).1.group_id@ == g;
                        if k < i {
                            assert(before.contains_key(g));
                        }
                    }
                }
                assert forall|g: Seq<char>, d: Seq<char>| r@.contains_key(g) implies (
                #[trigger] r@[g].contains(d) <==> exists|k: int|
                    0 <= k < i + 1 && (#[trigger] l[k]).1.group_id@ == g && l[k].1.device_id@
                        == d) by {
                    if r@[g].contains(d) {
                        if g == gi && d == di {
                            assert(l[i as int].1.group_id@ == g && l[i as int].1.device_id@ == d);
                        } else {
                            assert(before.contains_key(g));
                            assert(before[g].contains(d));
                        }
                    }
                    if exists|k: int|
                        0 <= k < i + 1 && (#[trigger] l[k]).1.group_id@ == g && l[k].1.device_id@
                            == d {
                        let k = choose|k: int|
                            0 <= k < i + 1 && (#[trigger] l[k]).1.group_id@ == g
                                && l[k].1.device_id@ == d;
                        if k < i {
                            assert(l[k].1.group_id@ == g);
                            assert(before.contains_key(g));
                            assert(before[g].contains(d));
                        }
                    }
                }
            }
            i = i + 1;
        }
        proof {
            self.lemma_roster(r@);
        }
        r
    }

    proof fn lemma_roster(&self, groups: Map<Seq<char>, Set<Seq<char>>>)
        requires
            self.wf(),
            forall|g: Seq<char>| #[trigger]
                groups.contains_key(g) <==> exists|k: int|
                    0 <= k < self.tokens.list().len() && (
                    #[trigger] self.tokens.list()[k]).1.group_id@ == g,
            forall|g: Seq<char>, d: Seq<char>|
                groups.contains_key(g) ==> (#[trigger] groups[g].contains(d) <==> exists|k: int|
                    0 <= k < self.tokens.list().len() && (
                    #[trigger] self.tokens.list()[k]).1.group_id@ == g
                        && self.tokens.list()[k].1.device_id@ == d),
        ensures
            is_roster(groups, self@),
    {
        let l = self.tokens.list();
        let m = self.tokens@;
        let tokens = self@;
        table::lemma_map_keys(l);
        table::lemma_map_values(l);
        assert forall|g: Seq<char>| #[trigger] groups.contains_key(g) <==> exists|t: Seq<char>|
            tokens.contains_key(t) && (#[trigger] tokens[t]).group_id == g by {
            if groups.contains_key(g) {
                let k = choose|k: int| 0 <= k < l.len() && (#[trigger] l[k]).1.group_id@ == g;
                assert(m.contains_key(l[k].0));
                assert(tokens[l[k].0].group_id == g);
            }
            if exists|t: Seq<char>| tokens.contains_key(t) && (#[trigger] tokens[t]).group_id == g {
                let t = choose|t: Seq<char>|
                    tokens.contains_key(t) && (#[trigger] tokens[t]).group_id == g;
                assert(m.contains_key(t));
                let k = choose|k: int| 0 <= k < l.len() && (#[trigger] l[k]).0 == t;
                assert(l[k].1.group_id@ == g);
            }
        }
        assert forall|g: Seq<char>, d: Seq<char>| groups.contains_key(g) implies (
        #[trigger] groups[g].contains(d) <==> exists|t: Seq<char>|
            tokens.contains_key(t) && (#[trigger] tokens[t]).group_id == g && tokens[t].device_id
                == d) by {
            if groups[g].contains(d) {
                let k = choose|k: int|
                    0 <= k < l.len() && (#[trigger] l[k]).1.group_id@ == g && l[k].1.device_id@ == d;
                assert(m.contains_key(l[k].0));
                assert(tokens[l[k].0].group_id == g && tokens[l[k].0].device_id == d);
            }
            if exists|t: Seq<char>|
                tokens.contains_key(t) && (#[trigger] tokens[t]).group_id == g
                    && tokens[t].device_id == d {
                let t = choose|t: Seq<char>|
                    tokens.contains_key(t) && (#[trigger] tokens[t]).group_id == g
                        && tokens[t].device_id == d;
                assert(m.contains_key(t));
                let k = choose|k: int| 0 <= k < l.len() && (#[trigger] l[k]).0 == t;
                assert(l[k].1.group_id@ == g && l[k].1.device_id@ == d);
            }
        }
    }

    /// Whose token it is.
    pub fn verify(&self, opaque_token: &str) -> (r: Result<RelayIdentity, AuthError>)
        requires
            self.wf(),
        ensures
            r is Ok == self@.contains_key(token_key(opaque_token@)),
            r matches Ok(identity) ==> identity@ == self@[token_key(opaque_token@)],
    {
        let key = sha256_hex(opaque_token.as_bytes());
        match self.tokens.get(key.as_str()) {
            Some(identity) => Ok(identity.clone()),
            None => Err(AuthError),
        }
    }
}

/// The relay's settings.
#[derive(Debug)]
pub struct RelayConfig {
    pub bind: String,
    pub security: SecurityConfig,
    pub max_message_bytes: usize,
    pub queue_capacity: usize,
    pub limits: LimitsConfig,
}

impl Default for RelayConfig {
    fn default() -> (r: Self)
        ensures
            r.bind@ == DEFAULT_BIND@,
            r.security.transport == Transport::Tls,
            !r.security.local_only,
            (SecurityConfig { local_only: true, ..r.security }).is_default(),
            r.max_message_bytes == 8_388_608,
            r.queue_capacity == DEFAULT_QUEUE_CAPACITY,
            r.limits == crate::config::default_limits(),
    {
        let security = SecurityConfig { local_only: false, ..SecurityConfig::default() };
        RelayConfig {
            bind: DEFAULT_BIND.to_owned(),
            security,
            max_message_bytes: 8_388_608,
            queue_capacity: DEFAULT_QUEUE_CAPACITY,
            limits: LimitsConfig::default(),
        }
    }
}

impl RelayConfig {
    /// Refuses to run without TLS.
    pub fn check_transport(&self) -> (r: Result<(), String>)
        ensures
            r is Ok == (self.security.transport == Transport::Tls),
            r matches Err(e) ==> e@ == "relay exige TLS; plaintext não é suportado"@,
    {
        if self.security.transport == Transport::Tls {
            Ok(())
        } else {
            Err("relay exige TLS; plaintext não é suportado".to_owned())
        }
    }

    /// The relay's part of the settings. A relay runs under TLS only.
    pub fn from_config(config: &Config) -> (r: Result<Self, String>)
        ensures
            r is Ok == (config.security.transport == Transport::Tls),
            r matches Err(e) ==> e@
                == "relay exige security.transport = \"tls\"; plaintext não é suportado"@,
            r matches Ok(c) ==> {
                &&& c.bind == config.bind
                &&& c.security == config.security
                &&& c.max_message_bytes == config.clipboard.message_limit()
                &&& c.queue_capacity == DEFAULT_QUEUE_CAPACITY
                &&& c.limits == config.limits
            },
    {
        if config.security.transport != Transport::Tls {
            return Err(
                "relay exige security.transport = \"tls\"; plaintext não é suportado".to_owned(),
            );
        }
        let max_message_bytes: usize = config.clipboard.max_websocket_message_bytes();
        if max_message_bytes == 0 {
            return Err("limite de mensagem do relay não pode ser zero".to_owned());
        }
        Ok(
            RelayConfig {
                bind: config.bind.clone(),
                security: config.security.clone(),
                max_message_bytes,
                queue_capacity: DEFAULT_QUEUE_CAPACITY,
                limits: config.limits,
            },
        )
    }
}

/// Who is connected, who may talk to whom, and what was seen of each session.
pub struct RelayState {
    sessions: Table<RelayIdentity>,
    groups: GroupAuthorizer,
    replay: ReplayProtector,
    admission: Admission,
}

/// The contents of a `RelayState`.
pub struct RelayView {
    /// The identity of each session, under the session's identifier.
    pub sessions: Map<Seq<char>, IdentityView>,
    pub groups: Map<Seq<char>, Set<Seq<char>>>,
    pub seen: Map<Seq<char>, u64>,
    pub admission: AdmissionView,
}

impl View for RelayState {
    type V = RelayView;

    closed spec fn view(&self) -> RelayView {
        RelayView {
            sessions: self.sessions@.map_values(|i: RelayIdentity| i@),
            groups: self.groups@,
            seen: self.replay@,
            admission: self.admission@,
        }
    }
}

/// `sessions` without those of the same device as `identity`.
pub open spec fn without_device(
    sessions: Map<Seq<char>, IdentityView>,
    identity: IdentityView,
) -> Map<Seq<char>, IdentityView> {
    Map::new(
        |k: Seq<char>| sessions.contains_key(k) && !is_same_device(sessions[k], identity),
        |k: Seq<char>| sessions[k],
    )
}

/// What was seen, without the sessions that are gone from `before` to `after`.
pub open spec fn forgetting(
    seen: Map<Seq<char>, u64>,
    before: Map<Seq<char>, IdentityView>,
    after: Map<Seq<char>, IdentityView>,
) -> Map<Seq<char>, u64> {
    Map::new(
        |k: Seq<char>| seen.contains_key(k) && !(before.contains_key(k) && !after.contains_key(k)),
        |k: Seq<char>| seen[k],
    )
}

/// Who hears of what `source` sends in `group`, to `destination` or to all: the group's
/// other devices.
pub open spec fn hears(
    source: Seq<char>,
    group: Seq<char>,
    destination: Option<Seq<char>>,
) -> spec_fn(IdentityView) -> bool {
    |i: IdentityView|
        {
            &&& i.group_id == group
            &&& destination is Some ==> i.device_id == destination->Some_0
            &&& i.device_id != source
        }
}

/// Who is the same device as `identity`.
pub open spec fn is_device(identity: IdentityView) -> spec_fn(IdentityView) -> bool {
    |i: IdentityView| is_same_device(i, identity)
}

impl RelayView {
    /// The state once `identity` is connected as session `id`.
    pub open spec fn attached(self, identity: IdentityView, id: Seq<char>) -> RelayView {
        let kept = without_device(self.sessions, identity);
        RelayView {
            sessions: kept.insert(id, IdentityView { session_id: id, ..identity }),
            seen: forgetting(self.seen, self.sessions, kept),
            ..self
        }
    }

    /// The state once session `id` is gone.
    pub open spec fn detached(self, id: Seq<char>) -> RelayView {
        RelayView {
            sessions: self.sessions.remove(id),
            seen: if self.sessions.contains_key(id) {
                self.seen.remove(id)
            } else {
                self.seen
            },
            ..self
        }
    }

    /// Whether session `id` is that of device `source`.
    pub open spec fn is_active(self, id: Seq<char>, source: Seq<char>) -> bool {
        self.sessions.contains_key(id) && self.sessions[id].device_id == source
    }

    /// Each session is kept under its own identifier, and no device has two.
    pub open spec fn consistent(self) -> bool {
        &&& forall|k: Seq<char>| #[trigger]
            self.sessions.contains_key(k) ==> self.sessions[k].session_id == k
        &&& forall|j: Seq<char>, k: Seq<char>|
            #![trigger self.sessions[j], self.sessions[k]]
            self.sessions.contains_key(j) && self.sessions.contains_key(k) && j != k
                ==> !is_same_device(self.sessions[j], self.sessions[k])
    }
}

/// Whether `l` lists the sessions that hear, each once.
pub open spec fn is_audience(
    l: Seq<Seq<char>>,
    state: RelayView,
    source: Seq<char>,
    group: Seq<char>,
    destination: Option<Seq<char>>,
) -> bool {
    table::selects(l, state.sessions, hears(source, group, destination))
}

/// What to send, and the sessions to send it to.
#[derive(Debug)]
pub struct Delivery {
    pub message: Message,
    pub recipients: Vec<String>,
}

/// The name of an authorization error.
pub open spec fn error_name(e: AuthorizationError) -> Seq<char> {
    match e {
        AuthorizationError::UnknownGroup => "UnknownGroup"@,
        AuthorizationError::SourceNotMember => "SourceNotMember"@,
        AuthorizationError::DestinationNotMember => "DestinationNotMember"@,
        AuthorizationError::Replay => "Replay"@,
        AuthorizationError::SourceMismatch => "SourceMismatch"@,
    }
}

fn name_of_error(e: AuthorizationError) -> (r: &'static str)
    ensures
        r@ == error_name(e),
{
    match e {
        AuthorizationError::UnknownGroup => "UnknownGroup",
        AuthorizationError::SourceNotMember => "SourceNotMember",
        AuthorizationError::DestinationNotMember => "DestinationNotMember",
        AuthorizationError::Replay => "Replay",
        AuthorizationError::SourceMismatch => "SourceMismatch",
    }
}

/// Why an envelope is not routed, if so: its session is not that of the authenticated
/// device, or its group does not allow it.
pub open spec fn route_refusal(
    state: RelayView,
    envelope: RelayEnvelope,
    source: Seq<char>,
) -> Option<Seq<char>> {
    if !state.is_active(envelope.session_id@, source) {
        Some("authorization rejected: inactive session"@)
    } else {
        match envelope_verdict(envelope, source, state.groups, state.seen) {
            Err(e) => Some("authorization rejected: "@ + error_name(e)),
            Ok(()) => None,
        }
    }
}

/// The state after an envelope was judged.
pub open spec fn after_envelope(
    state: RelayView,
    envelope: RelayEnvelope,
    source: Seq<char>,
) -> RelayView {
    if state.is_active(envelope.session_id@, source) && envelope.source@ == source {
        RelayView {
            seen: seen_after(state.seen, envelope.session_id@, envelope.sequence),
            ..state
        }
    } else {
        state
    }
}

impl Default for RelayState {
    fn default() -> (r: Self)
        ensures
            r.wf(),
            r@ == (RelayView {
                sessions: Map::empty(),
                groups: Map::empty(),
                seen: Map::empty(),
                admission: AdmissionView {
                    active: 0,
                    windows: Map::empty(),
                    limits: crate::config::default_limits(),
                },
            }),
    {
        RelayState::with_groups_and_limits(GroupAuthorizer::default(), LimitsConfig::default())
    }
}

impl RelayState {
    pub closed spec fn wf(&self) -> bool {
        &&& self.sessions.wf()
        &&& self.groups.wf()
        &&& self.replay.wf()
        &&& self@.consistent()
        &&& self.admission@.holds_limits()
    }

    /// Nobody connected; `groups` says who may talk to whom.
    pub fn with_groups_and_limits(groups: GroupAuthorizer, limits: LimitsConfig) -> (r: Self)
        requires
            groups.wf(),
        ensures
            r.wf(),
            r@ == (RelayView {
                sessions: Map::empty(),
                groups: groups@,
                seen: Map::empty(),
                admission: AdmissionView { active: 0, windows: Map::empty(), limits },
            }),
            r@.consistent(),
            r@.admission.holds_limits(),
    {
        let r = RelayState {
            sessions: Table::new(),
            groups,
            replay: ReplayProtector::default(),
            admission: Admission::new(limits),
        };
        assert(r@.sessions =~= Map::<Seq<char>, IdentityView>::empty());
        r
    }

    /// Opens a connection where there is room for it.
    pub fn try_connection(&mut self) -> (r: bool)
        requires
            old(self).wf(),
            old(self)@.admission.active < usize::MAX,
        ensures
            final(self).wf(),
            r == old(self)@.admission.has_room(),
            final(self)@ == (RelayView {
                admission: AdmissionView {
                    active: if r {
                        (old(self)@.admission.active + 1) as usize
                    } else {
                        old(self)@.admission.active
                    },
                    ..old(self)@.admission
                },
                ..old(self)@
            }),
    {
        self.admission.try_connection()
    }

    /// Closes a connection.
    pub fn release_connection(&mut self)
        requires
            old(self).wf(),
            old(self)@.admission.active > 0,
        ensures
            final(self).wf(),
            final(self)@ == (RelayView {
                admission: AdmissionView {
                    active: (old(self)@.admission.active - 1) as usize,
                    ..old(self)@.admission
                },
                ..old(self)@
            }),
    {
        self.admission.release_connection()
    }

    /// How many connections are open.
    pub fn active(&self) -> (r: usize)
        ensures
            r == self@.admission.active,
    {
        self.admission.active()
    }

    /// Whether a message of `bytes` bytes from `ip` is let in now.
    pub fn allow_message(&mut self, ip: IpAddress, bytes: usize) -> (r: bool)
        requires
            old(self).wf(),
        ensures
            final(self).wf(),
            exists|now: u128|
                #![trigger old(self)@.admission.allows(ip, bytes as int, now)]
                r == old(self)@.admission.allows(ip, bytes as int, now) && final(self)@
                    == (RelayView {
                    admission: old(self)@.admission.after_message(ip, bytes as int, now),
                    ..old(self)@
                }),
    {
        let ghost before = self@;
        let ghost a = self.admission@;
        let r = self.admission.allow_message(ip, bytes);
        let ghost now = choose|now: u128|
            #![trigger a.allows(ip, bytes as int, now)]
            r == a.allows(ip, bytes as int, now) && self.admission@ == a.after_message(
                ip,
                bytes as int,
                now,
            );
        assert(r == before.admission.allows(ip, bytes as int, now));
        assert(self@ == (RelayView {
            admission: before.admission.after_message(ip, bytes as int, now),
            ..before
        }));
        assert(self@.consistent());
        r
    }

    /// Connects `identity` under a fresh random session, in place of the sessions of the
    /// same device. Gives back the session and those that it replaced.
    pub fn attach(&mut self, identity: RelayIdentity) -> (r: (SessionId, Vec<String>))
        requires
            old(self).wf(),
        ensures
            final(self).wf(),
            final(self)@ == old(self)@.attached(identity@, r.0@),
            entropy::is_uuid(r.0@),
            is_replaced(text::views(r.1@), old(self)@.sessions, identity@),
    {
        let session_id = SessionId::new();
        let replaced = self.attach_as(identity, &session_id);
        (session_id, replaced)
    }

    /// Connects `identity` as session `session_id`, in place of the sessions of the same
    /// device, which are given back.
    pub fn attach_as(&mut self, identity: RelayIdentity, session_id: &SessionId) -> (r: Vec<String>)
        requires
            old(self).wf(),
        ensures
            final(self).wf(),
            final(self)@ == old(self)@.attached(identity@, session_id@),
            is_replaced(text::views(r@), old(self)@.sessions, identity@),
    {
        let ghost before = self@;
        let ghost i = identity@;
        let replaced = self.sessions_of(&identity);
        let ghost ids = text::views(replaced@);
        let mut n: usize = 0;
        assert(ids.take(0) =~= Seq::<Seq<char>>::empty());
        assert(forgetting(before.seen, before.sessions, before.sessions) =~= before.seen);
        while n < replaced.len()
            invariant
                n <= replaced@.len(),
                self.wf(),
                is_replaced(text::views(replaced@), before.sessions, i),
                before.consistent(),
                self@.groups == before.groups,
                self@.admission == before.admission,
                self@.sessions == dropped(before.sessions, ids.take(n as int)),
                ids == text::views(replaced@),
                ids.len() == replaced@.len(),
                self@.seen == forgetting(before.seen, before.sessions, self@.sessions),
                i == identity@,
            decreases replaced@.len() - n,
        {
            let ghost s0 = self@;
            self.detach(replaced[n].as_str());
            proof {
                assert(ids[n as int] == replaced@[n as int]@);
                lemma_not_dropped(before.sessions, ids, n as int);
                assert(self@.seen =~= forgetting(before.seen, before.sessions, self@.sessions));
            }
            n = n + 1;
        }
        proof {
            assert(ids.take(n as int) =~= ids);
            lemma_dropped_all(before.sessions, ids, i);
        }
        let ghost mid = self@;
        let attached = RelayIdentity {
            account_id: identity.account_id,
            device_id: identity.device_id,
            session_id: session_id.clone(),
            group_id: identity.group_id,
        };
        self.sessions.insert(session_id.to_string(), attached);
        proof {
            assert(self@.sessions =~= mid.sessions.insert(session_id@, attached@));
            assert(attached@ == (IdentityView { session_id: session_id@, ..i }));
            lemma_attached_consistent(before, i, session_id@);
            assert(self@ == before.attached(i, session_id@));
        }
        replaced
    }

    /// The sessions of the same device as `identity`.
    fn sessions_of(&self, identity: &RelayIdentity) -> (r: Vec<String>)
        requires
            self.wf(),
        ensures
            is_replaced(text::views(r@), self@.sessions, identity@),
    {
        let test = |i: &RelayIdentity| -> (b: bool)
            ensures
                b == is_same_device(i@, identity@),
            { same_device(i, identity) };
        let ghost p = |i: RelayIdentity| is_same_device(i@, identity@);
        let r = self.sessions.select(test, Ghost(p));
        proof {
            lemma_selects_views(text::views(r@), self.sessions@, p, is_device(identity@));
        }
        r
    }

    /// Takes a session out, if it is there, with what was seen of it.
    pub fn detach(&mut self, session_id: &str)
        requires
            old(self).wf(),
        ensures
            final(self).wf(),
            final(self)@ == old(self)@.detached(session_id@),
    {
        let ghost before = self@;
        match self.sessions.remove(session_id) {
            Some(identity) => {
                assert(before.sessions.contains_key(session_id@));
                assert(identity@ == before.sessions[session_id@]);
                self.replay.forget(&identity.session_id);
                assert(self@.sessions =~= before.sessions.remove(session_id@));
            },
            None => {
                assert(!before.sessions.contains_key(session_id@));
                assert(self@.sessions =~= before.sessions.remove(session_id@));
            },
        }
        assert(self@.consistent());
    }

    /// Judges an envelope and says what to send to whom: only within its group, and
    /// never back to the device that it came from.
    pub fn route_envelope(&mut self, envelope: RelayEnvelope, authenticated_source: &DeviceId) -> (r:
        Result<Delivery, String>)
        requires
            old(self).wf(),
        ensures
            final(self).wf(),
            final(self)@ == after_envelope(old(self)@, envelope, authenticated_source@),
            match r {
                Err(e) => route_refusal(old(self)@, envelope, authenticated_source@) == Some(e@),
                Ok(d) => {
                    &&& route_refusal(old(self)@, envelope, authenticated_source@) is None
                    &&& d.message@ == envelope.payload@.with_origin(authenticated_source@)
                    &&& is_audience(
                        text::views(d.recipients@),
                        old(self)@,
                        authenticated_source@,
                        envelope.group@,
                        opt_id(envelope.destination),
                    )
                },
            },
    {
        let ghost before = self@;
        let active = match self.sessions.get(envelope.session_id.as_str()) {
            Some(session) => text::same(
                session.device_id.as_str(),
                authenticated_source.as_str(),
            ) && text::same(session.session_id.as_str(), envelope.session_id.as_str()),
            None => false,
        };
        proof {
            if self.sessions@.contains_key(envelope.session_id@) {
                assert(before.sessions.contains_key(envelope.session_id@));
                assert(before.sessions[envelope.session_id@].session_id == envelope.session_id@);
            }
            assert(active == before.is_active(envelope.session_id@, authenticated_source@));
        }
        if !active {
            return Err("authorization rejected: inactive session".to_owned());
        }
        let mut envelope = envelope;
        let ghost original = envelope;
        match envelope.authorize(authenticated_source, &self.groups, &mut self.replay) {
            Err(e) => {
                return Err(text::join("authorization rejected: ", name_of_error(e)));
            },
            Ok(()) => {},
        }
        proof {
            crate::protocol::law_origin_is_authoritative(
                original.payload@,
                authenticated_source@,
                authenticated_source@,
            );
        }
        let source = envelope.source;
        let destination = envelope.destination;
        Ok(self.route_by_source(&source, &envelope.group, destination.as_ref(), envelope.payload))
    }

    /// The message under its true origin, and the sessions that hear of it.
    pub fn route_by_source(
        &self,
        source: &DeviceId,
        group: &GroupId,
        destination: Option<&DeviceId>,
        message: Message,
    ) -> (r: Delivery)
        requires
            self.wf(),
        ensures
            r.message@ == message@.with_origin(source@),
            is_audience(
                text::views(r.recipients@),
                self@,
                source@,
                group@,
                crate::auth::ref_id(destination),
            ),
    {
        let message = message.with_origin(source);
        let ghost to = crate::auth::ref_id(destination);
        let test = |i: &RelayIdentity| -> (b: bool)
            ensures
                b == hears(source@, group@, crate::auth::ref_id(destination))(i@),
            {
                let wanted = match destination {
                    Some(d) => text::same(i.device_id.as_str(), d.as_str()),
                    None => true,
                };
                text::same(i.group_id.as_str(), group.as_str()) && wanted && !text::same(
                    i.device_id.as_str(),
                    source.as_str(),
                )
            };
        let ghost p = |i: RelayIdentity| hears(source@, group@, to)(i@);
        let recipients = self.sessions.select(test, Ghost(p));
        proof {
            lemma_selects_views(
                text::views(recipients@),
                self.sessions@,
                p,
                hears(source@, group@, to),
            );
        }
        Delivery { message, recipients }
    }

    /// Takes out the sessions whose queues were full or closed: a session that cannot
    /// keep up is dropped.
    pub fn drop_sessions(&mut self, ids: &Vec<String>)
        requires
            old(self).wf(),
        ensures
            final(self).wf(),
            final(self)@ == dropped_state(old(self)@, text::views(ids@)),
    {
        let ghost before = self@;
        let mut i: usize = 0;
        assert(text::views(ids@).take(0) =~= Seq::<Seq<char>>::empty());
        while i < ids.len()
            invariant
                i <= ids@.len(),
                self.wf(),
                self@ == dropped_state(before, text::views(ids@).take(i as int)),
            decreases ids@.len() - i,
        {
            let ghost v = text::views(ids@);
            assert(v.take(i + 1).drop_last() =~= v.take(i as int));
            assert(v.take(i + 1).last() == ids@[i as int]@);
            self.detach(ids[i].as_str());
            i = i + 1;
        }
        assert(text::views(ids@).take(i as int) =~= text::views(ids@));
    }

    /// How many sessions there are.
    pub fn len(&self) -> (r: usize)
        requires
            self.wf(),
        ensures
            r == self@.sessions.len(),
    {
        let r: usize = self.sessions.len();
        assert(self@.sessions.dom() =~= self.sessions@.dom());
        r
    }

    pub fn is_empty(&self) -> (r: bool)
        requires
            self.wf(),
        ensures
            r == (self@.sessions.len() == 0),
    {
        self.len() == 0
    }
}

/// The state once the sessions `ids` are gone.
pub open spec fn dropped_state(state: RelayView, ids: Seq<Seq<char>>) -> RelayView
    decreases ids.len(),
{
    if ids.len() == 0 {
        state
    } else {
        dropped_state(state, ids.drop_last()).detached(ids.last())
    }
}

/// Whether `l` lists the sessions of the same device as `identity`, each once.
pub open spec fn is_replaced(
    l: Seq<Seq<char>>,
    sessions: Map<Seq<char>, IdentityView>,
    identity: IdentityView,
) -> bool {
    table::selects(l, sessions, is_device(identity))
}

/// `sessions` without those of `ids`.
spec fn dropped(sessions: Map<Seq<char>, IdentityView>, ids: Seq<Seq<char>>) -> Map<
    Seq<char>,
    IdentityView,
>
    decreases ids.len(),
{
    if ids.len() == 0 {
        sessions
    } else {
        dropped(sessions, ids.drop_last()).remove(ids.last())
    }
}

/// What selects identities selects their contents.
proof fn lemma_selects_views(
    keys: Seq<Seq<char>>,
    m: Map<Seq<char>, RelayIdentity>,
    p: spec_fn(RelayIdentity) -> bool,
    q: spec_fn(IdentityView) -> bool,
)
    requires
        table::selects(keys, m, p),
        forall|i: RelayIdentity| #[trigger] p(i) == q(i@),
    ensures
        table::selects(keys, m.map_values(|i: RelayIdentity| i@), q),
{
    let n = m.map_values(|i: RelayIdentity| i@);
    assert forall|i: int| 0 <= i < keys.len() implies n.contains_key(#[trigger] keys[i]) && q(
        n[keys[i]],
    ) by {
        assert(m.contains_key(keys[i]) && p(m[keys[i]]));
    }
    assert forall|k: Seq<char>| #[trigger] n.contains_key(k) && q(n[k]) implies exists|i: int|
        0 <= i < keys.len() && #[trigger] keys[i] == k by {
        assert(m.contains_key(k) && p(m[k]));
    }
}

proof fn lemma_dropped_keys(sessions: Map<Seq<char>, IdentityView>, ids: Seq<Seq<char>>)
    ensures
        forall|k: Seq<char>| #[trigger]
            dropped(sessions, ids).contains_key(k) <==> sessions.contains_key(k) && !(exists|i: int|
                0 <= i < ids.len() && #[trigger] ids[i] == k),
        forall|k: Seq<char>|
            dropped(sessions, ids).contains_key(k) ==> #[trigger] dropped(sessions, ids)[k]
                == sessions[k],
    decreases ids.len(),
{
    if ids.len() > 0 {
        let d = ids.drop_last();
        lemma_dropped_keys(sessions, d);
        assert forall|k: Seq<char>| #[trigger]
            dropped(sessions, ids).contains_key(k) <==> sessions.contains_key(k) && !(exists|i: int|
            0 <= i < ids.len() && #[trigger] ids[i] == k) by {
            if dropped(sessions, ids).contains_key(k) {
                assert(dropped(sessions, d).contains_key(k));
                if exists|i: int| 0 <= i < ids.len() && #[trigger] ids[i] == k {
                    let i = choose|i: int| 0 <= i < ids.len() && #[trigger] ids[i] == k;
                    if i < d.len() {
                        assert(d[i] == k);
                    }
                }
            }
            if sessions.contains_key(k) && !(exists|i: int|
                0 <= i < ids.len() && #[trigger] ids[i] == k) {
                if exists|i: int| 0 <= i < d.len() && #[trigger] d[i] == k {
                    let i = choose|i: int| 0 <= i < d.len() && #[trigger] d[i] == k;
                    assert(ids[i] == k);
                }
                assert(ids[ids.len() - 1] != k);
                assert(dropped(sessions, d).contains_key(k));
            }
        }
        assert forall|k: Seq<char>| dropped(sessions, ids).contains_key(k) implies
            #[trigger] dropped(sessions, ids)[k] == sessions[k] by {
            assert(dropped(sessions, d).contains_key(k));
            assert(dropped(sessions, d)[k] == sessions[k]);
        }
    }
}

proof fn lemma_not_dropped(sessions: Map<Seq<char>, IdentityView>, ids: Seq<Seq<char>>, n: int)
    requires
        0 <= n < ids.len(),
        sessions.contains_key(ids[n]),
        forall|i: int, j: int| 0 <= i < j < ids.len() ==> #[trigger] ids[i] != #[trigger] ids[j],
    ensures
        dropped(sessions, ids.take(n)).contains_key(ids[n]),
        dropped(sessions, ids.take(n + 1)) == dropped(sessions, ids.take(n)).remove(ids[n]),
{
    assert(ids.take(n + 1).drop_last() =~= ids.take(n));
    lemma_dropped_keys(sessions, ids.take(n));
    if exists|i: int| 0 <= i < n && #[trigger] ids.take(n)[i] == ids[n] {
        let i = choose|i: int| 0 <= i < n && #[trigger] ids.take(n)[i] == ids[n];
        assert(ids[i] != ids[n]);
    }
}

proof fn lemma_dropped_all(
    sessions: Map<Seq<char>, IdentityView>,
    ids: Seq<Seq<char>>,
    identity: IdentityView,
)
    requires
        is_replaced(ids, sessions, identity),
    ensures
        dropped(sessions, ids) == without_device(sessions, identity),
{
    lemma_dropped_keys(sessions, ids);
    let w = without_device(sessions, identity);
    let p = is_device(identity);
    assert forall|k: Seq<char>| dropped(sessions, ids).contains_key(k) <==> w.contains_key(k) by {
        if sessions.contains_key(k) {
            if is_same_device(sessions[k], identity) {
                assert(p(sessions[k]));
                assert(exists|i: int| 0 <= i < ids.len() && #[trigger] ids[i] == k);
            } else {
                if exists|i: int| 0 <= i < ids.len() && #[trigger] ids[i] == k {
                    let i = choose|i: int| 0 <= i < ids.len() && #[trigger] ids[i] == k;
                    assert(p(sessions[ids[i]]));
                }
            }
        }
    }
    assert(dropped(sessions, ids) =~= w);
}

proof fn lemma_attached_consistent(s: RelayView, identity: IdentityView, id: Seq<char>)
    requires
        s.consistent(),
    ensures
        s.attached(identity, id).consistent(),
{
    let t = s.attached(identity, id);
    assert forall|j: Seq<char>, k: Seq<char>|
        #![trigger t.sessions[j], t.sessions[k]]
        t.sessions.contains_key(j) && t.sessions.contains_key(k) && j
            != k implies !is_same_device(t.sessions[j], t.sessions[k]) by {
        if j != id && k != id {
            assert(t.sessions[j] == s.sessions[j]);
            assert(t.sessions[k] == s.sessions[k]);
        }
    }
}

/// A device that connects again has one session, its newest: taking out the older one
/// then changes nothing.
pub proof fn law_newest_session_stays(
    s: RelayView,
    identity: IdentityView,
    older: Seq<char>,
    newer: Seq<char>,
)
    requires
        s.consistent(),
        older != newer,
    ensures
        ({
            let t = s.attached(identity, older).attached(identity, newer);
            &&& t.sessions.contains_key(newer)
            &&& !t.sessions.contains_key(older)
            &&& t.detached(older) == t
            &&& t.consistent()
        }),
{
    lemma_attached_consistent(s, identity, older);
    let u = s.attached(identity, older);
    lemma_attached_consistent(u, identity, newer);
    let t = u.attached(identity, newer);
    assert(u.sessions.contains_key(older));
    assert(is_same_device(u.sessions[older], identity));
    assert(t.detached(older).sessions =~= t.sessions);
}

/// A session that was replaced can send no more, and the newer one starts with nothing
/// seen, so that its first sequence number is 1 again.
pub proof fn law_replaced_session_is_refused(
    s: RelayView,
    identity: IdentityView,
    older: Seq<char>,
    newer: Seq<char>,
    envelope: RelayEnvelope,
)
    requires
        s.consistent(),
        older != newer,
        !s.seen.contains_key(newer),
        envelope.session_id@ == older,
    ensures
        ({
            let t = s.attached(identity, older).attached(identity, newer);
            &&& route_refusal(t, envelope, identity.device_id) == Some(
                "authorization rejected: inactive session"@,
            )
            &&& crate::auth::highest_of(t.seen, newer) == 0
            &&& t.is_active(newer, identity.device_id)
        }),
{
    law_newest_session_stays(s, identity, older, newer);
}

/// What is routed stays in its group and never goes back to its sender: every session
/// that hears is of the envelope's group, and of another device.
pub proof fn law_routing_stays_in_group(
    state: RelayView,
    envelope: RelayEnvelope,
    source: Seq<char>,
    recipients: Seq<Seq<char>>,
    i: int,
)
    requires
        route_refusal(state, envelope, source) is None,
        is_audience(
            recipients,
            state,
            source,
            envelope.group@,
            opt_id(envelope.destination),
        ),
        0 <= i < recipients.len(),
    ensures
        state.groups.contains_key(envelope.group@),
        state.groups[envelope.group@].contains(source),
        state.sessions[recipients[i]].group_id == envelope.group@,
        state.sessions[recipients[i]].device_id != source,
        envelope.destination is Some ==> state.sessions[recipients[i]].device_id
            == envelope.destination->Some_0@,
{
    let p = hears(source, envelope.group@, opt_id(envelope.destination));
    assert(p(state.sessions[recipients[i]]));
}

/// An envelope as it came over the wire.
#[derive(Debug)]
pub struct WireEnvelope {
    pub kind: String,
    pub session_id: SessionId,
    pub source: DeviceId,
    pub destination: Option<DeviceId>,
    pub group: GroupId,
    pub sequence: u64,
    pub payload: Message,
}

/// What the text of a frame holds.
#[derive(Debug)]
pub enum RelayContent {
    Message(Message),
    Envelope(WireEnvelope),
    Invalid,
}

/// A frame of a relay connection. Text comes with its size in bytes.
#[derive(Debug)]
pub enum RelayFrame {
    Text { size: usize, content: RelayContent },
    Binary { size: usize },
    Ping { size: usize },
    Pong { size: usize },
    Close,
}

impl RelayFrame {
    /// How many bytes the frame counts for.
    pub open spec fn bytes(self) -> usize {
        match self {
            RelayFrame::Text { size, .. } => size,
            RelayFrame::Binary { size } => size,
            RelayFrame::Ping { size } => size,
            RelayFrame::Pong { size } => size,
            RelayFrame::Close => 0,
        }
    }

    /// How many bytes the frame counts for.
    pub fn size(&self) -> (r: usize)
        ensures
            r == self.bytes(),
    {
        match self {
            RelayFrame::Text { size, .. } => *size,
            RelayFrame::Binary { size } => *size,
            RelayFrame::Ping { size } => *size,
            RelayFrame::Pong { size } => *size,
            RelayFrame::Close => 0,
        }
    }
}

/// Whether a first frame is a `hello` in this version of the protocol that names no
/// other device than the authenticated one.
pub open spec fn greets(frame: RelayFrame, device_id: Seq<char>) -> bool {
    frame matches RelayFrame::Text { size, content: RelayContent::Message(m) } && (
    m@ matches MessageView::Hello { v, device } && v == PROTOCOL_VERSION && (device.id is Some
        ==> device.id == Some(device_id)))
}

/// Judges the first frame of a connection.
pub fn handle_hello(frame: &RelayFrame, identity: &RelayIdentity) -> (r: bool)
    ensures
        r == greets(*frame, identity.device_id@),
{
    match frame {
        RelayFrame::Text { size: _, content: RelayContent::Message(m) } => match m {
            Message::Hello { v, device } => {
                if *v != PROTOCOL_VERSION {
                    return false;
                }
                match &device.id {
                    Some(id) => text::same(id.as_str(), identity.device_id.as_str()),
                    None => true,
                }
            },
            _ => false,
        },
        _ => false,
    }
}

/// What to do after a frame.
#[derive(Debug)]
pub enum RelayAction {
    Nothing,
    /// Send the message back.
    Reply(Message),
    Deliver(Delivery),
    /// Close the connection.
    Close,
}

/// A connection that was let in.
#[derive(Debug)]
pub struct RelayConnection {
    pub identity: RelayIdentity,
    pub session_id: SessionId,
    /// How many messages without an envelope it has sent.
    pub sequence: u64,
}

/// The envelope that a bare message is sent under: to all of the sender's group.
pub open spec fn wraps(
    envelope: RelayEnvelope,
    c: RelayConnection,
    sequence: u64,
    m: MessageView,
) -> bool {
    &&& envelope.session_id@ == c.session_id@
    &&& envelope.source@ == c.identity.device_id@
    &&& envelope.destination is None
    &&& envelope.group@ == c.identity.group_id@
    &&& envelope.sequence == sequence
    &&& envelope.payload@ == m
}

/// Whether `envelope` is the one that came over the wire.
pub open spec fn carries(envelope: RelayEnvelope, wire: WireEnvelope) -> bool {
    envelope == (RelayEnvelope {
        session_id: wire.session_id,
        source: wire.source,
        destination: wire.destination,
        group: wire.group,
        sequence: wire.sequence,
        payload: wire.payload,
    })
}

/// Whether routing `envelope` for device `source` comes to `action`, the state going
/// from `before` to `after`.
pub open spec fn routes_to(
    before: RelayView,
    after: RelayView,
    envelope: RelayEnvelope,
    source: Seq<char>,
    action: RelayAction,
) -> bool {
    &&& after == after_envelope(before, envelope, source)
    &&& if route_refusal(before, envelope, source) is Some {
        action is Close
    } else {
        action matches RelayAction::Deliver(d) && d.message@ == envelope.payload@.with_origin(
            source,
        ) && is_audience(
            text::views(d.recipients@),
            before,
            source,
            envelope.group@,
            opt_id(envelope.destination),
        )
    }
}

/// Whether `action` is what a frame that was let in comes to, the state going from
/// `before` to `after`. A bare message has the sequence number after the last; an
/// envelope must be of this session; handshake messages and binary frames end the
/// connection.
pub open spec fn answers(
    before: RelayView,
    after: RelayView,
    c: RelayConnection,
    frame: RelayFrame,
    action: RelayAction,
) -> bool {
    let source = c.identity.device_id@;
    match frame {
        RelayFrame::Text { size, content: RelayContent::Message(m) } => match m@ {
            MessageView::Hello { .. } => action is Close && after == before,
            MessageView::PairChallenge { .. } => action is Close && after == before,
            MessageView::PairSubmit { .. } => action is Close && after == before,
            MessageView::PairOk { .. } => action is Close && after == before,
            MessageView::PairFail { .. } => action is Close && after == before,
            MessageView::Ping { ts } => {
                &&& after == before
                &&& action matches RelayAction::Reply(reply) && reply@ == (MessageView::Pong { ts })
            },
            MessageView::Pong { .. } => action is Nothing && after == before,
            other => exists|envelope: RelayEnvelope|
                #[trigger] wraps(envelope, c, (c.sequence + 1) as u64, other) && routes_to(
                    before,
                    after,
                    envelope,
                    source,
                    action,
                ),
        },
        RelayFrame::Text { size, content: RelayContent::Envelope(wire) } => if wire.kind@
            != "relay_envelope"@ || wire.session_id@ != c.session_id@ {
            action is Close && after == before
        } else {
            exists|envelope: RelayEnvelope|
                #[trigger] carries(envelope, wire) && routes_to(
                    before,
                    after,
                    envelope,
                    source,
                    action,
                )
        },
        RelayFrame::Text { size, content: RelayContent::Invalid } => action is Close && after
            == before,
        RelayFrame::Ping { size } => action is Nothing && after == before,
        RelayFrame::Pong { size } => action is Nothing && after == before,
        RelayFrame::Binary { size } => action is Close && after == before,
        RelayFrame::Close => action is Close && after == before,
    }
}

/// Whether a frame holds a message that is counted in the connection's sequence.
pub open spec fn is_counted(frame: RelayFrame) -> bool {
    frame matches RelayFrame::Text { size, content: RelayContent::Message(m) } && (
    m@.is_clipboard() || m@ is Error)
}

impl RelayConnection {
    fn route(&self, state: &mut RelayState, envelope: RelayEnvelope) -> (r: RelayAction)
        requires
            old(state).wf(),
        ensures
            final(state).wf(),
            routes_to(old(state)@, final(state)@, envelope, self.identity.device_id@, r),
    {
        match state.route_envelope(envelope, &self.identity.device_id) {
            Ok(d) => RelayAction::Deliver(d),
            Err(_) => RelayAction::Close,
        }
    }

    /// Takes in a frame that was let in.
    pub fn take(&mut self, state: &mut RelayState, frame: RelayFrame) -> (r: RelayAction)
        requires
            old(state).wf(),
            old(self).sequence < u64::MAX,
        ensures
            final(state).wf(),
            answers(old(state)@, final(state)@, *old(self), frame, r),
            final(self).identity == old(self).identity,
            final(self).session_id == old(self).session_id,
            final(self).sequence == if is_counted(frame) {
                (old(self).sequence + 1) as u64
            } else {
                old(self).sequence
            },
    {
        match frame {
            RelayFrame::Text { size: _, content } => match content {
                RelayContent::Message(m) => match m {
                    Message::Hello { .. } => RelayAction::Close,
                    Message::PairChallenge { .. } => RelayAction::Close,
                    Message::PairSubmit { .. } => RelayAction::Close,
                    Message::PairOk { .. } => RelayAction::Close,
                    Message::PairFail { .. } => RelayAction::Close,
                    Message::Ping { ts } => RelayAction::Reply(Message::Pong { ts }),
                    Message::Pong { .. } => RelayAction::Nothing,
                    m => {
                        let ghost before = *self;
                        let ghost s = state@;
                        self.sequence = self.sequence + 1;
                        let ghost payload = m@;
                        let envelope = RelayEnvelope {
                            session_id: self.session_id.clone(),
                            source: self.identity.device_id.clone(),
                            destination: None,
                            group: self.identity.group_id.clone(),
                            sequence: self.sequence,
                            payload: m,
                        };
                        let ghost e = envelope;
                        let r = self.route(state, envelope);
                        proof {
                            assert(wraps(e, before, (before.sequence + 1) as u64, payload));
                            assert(routes_to(s, state@, e, before.identity.device_id@, r));
                        }
                        r
                    },
                },
                RelayContent::Envelope(wire) => {
                    if !text::same(wire.kind.as_str(), "relay_envelope") || !text::same(
                        wire.session_id.as_str(),
                        self.session_id.as_str(),
                    ) {
                        return RelayAction::Close;
                    }
                    let ghost w = wire;
                    let ghost s = state@;
                    let envelope = RelayEnvelope {
                        session_id: wire.session_id,
                        source: wire.source,
                        destination: wire.destination,
                        group: wire.group,
                        sequence: wire.sequence,
                        payload: wire.payload,
                    };
                    let ghost e = envelope;
                    let r = self.route(state, envelope);
                    proof {
                        assert(carries(e, w));
                        assert(routes_to(s, state@, e, self.identity.device_id@, r));
                    }
                    r
                },
                RelayContent::Invalid => RelayAction::Close,
            },
            RelayFrame::Ping { size: _ } => RelayAction::Nothing,
            RelayFrame::Pong { size: _ } => RelayAction::Nothing,
            RelayFrame::Binary { size: _ } => RelayAction::Close,
            RelayFrame::Close => RelayAction::Close,
        }
    }

    /// Takes in a frame from `ip`. A connection that sends more than it may is closed.
    pub fn handle_frame(&mut self, state: &mut RelayState, frame: RelayFrame, ip: IpAddress) -> (r:
        RelayAction)
        requires
            old(state).wf(),
            old(self).sequence < u64::MAX,
        ensures
            final(state).wf(),
            answers_limited(
                old(state)@,
                final(state)@,
                *old(self),
                *final(self),
                frame,
                ip,
                r,
            ),
    {
        let ghost before = state@;
        let size: usize = frame.size();
        let allowed = state.allow_message(ip, size);
        let ghost now = choose|now: u128|
            #![trigger before.admission.allows(ip, size as int, now)]
            allowed == before.admission.allows(ip, size as int, now) && state@ == (RelayView {
                admission: before.admission.after_message(ip, size as int, now),
                ..before
            });
        assert(allowed == before.admission.allows(ip, frame.bytes() as int, now));
        if !allowed {
            return RelayAction::Close;
        }
        self.take(state, frame)
    }
}

/// What reading a relay connection gave.
#[derive(Debug)]
pub enum RelayIncoming {
    Frame(RelayFrame),
    /// Reading failed.
    Failed,
    /// The other end is gone.
    Ended,
}

/// Where a relay connection stands.
#[derive(Debug)]
pub enum RelayPhase {
    /// Its first message is waited for.
    Hello,
    Open(RelayConnection),
    /// It is over. A session that is still to be taken out is named; one whose
    /// connection broke is left to be dropped at the next delivery.
    Closed(Option<SessionId>),
}

/// A relay connection whose token was accepted.
#[derive(Debug)]
pub struct RelayPeer {
    pub identity: RelayIdentity,
    pub phase: RelayPhase,
}

/// What a relay connection does after something came.
#[derive(Debug)]
pub enum RelayStep {
    /// It is connected; the sessions that it replaced are named.
    Attached(Vec<String>),
    Act(RelayAction),
    Closed,
}

/// Whether `action` is what `frame` from `ip` comes to on the connection `c`, the state
/// going from `before` to `after` and the connection to `c_after`.
pub open spec fn answers_limited(
    before: RelayView,
    after: RelayView,
    c: RelayConnection,
    c_after: RelayConnection,
    frame: RelayFrame,
    ip: IpAddress,
    action: RelayAction,
) -> bool {
    exists|now: u128|
        #![trigger before.admission.allows(ip, frame.bytes() as int, now)]
        {
            let counted = RelayView {
                admission: before.admission.after_message(ip, frame.bytes() as int, now),
                ..before
            };
            if before.admission.allows(ip, frame.bytes() as int, now) {
                &&& answers(counted, after, c, frame, action)
                &&& c_after == (RelayConnection {
                    sequence: if is_counted(frame) {
                        (c.sequence + 1) as u64
                    } else {
                        c.sequence
                    },
                    ..c
                })
            } else {
                action is Close && after == counted && c_after == c
            }
        }
}

impl RelayPeer {
    /// A connection that waits for its first message.
    pub fn new(identity: RelayIdentity) -> (r: Self)
        ensures
            r.identity == identity,
            r.phase is Hello,
    {
        RelayPeer { identity, phase: RelayPhase::Hello }
    }

    /// Whether the connection has used up its sequence numbers.
    pub fn is_exhausted(&self) -> (r: bool)
        ensures
            r == (self.phase matches RelayPhase::Open(c) && c.sequence == u64::MAX),
    {
        match &self.phase {
            RelayPhase::Open(c) => c.sequence == u64::MAX,
            _ => false,
        }
    }

    /// Takes in what came. Nothing is routed before a `hello` that matches the token; the
    /// session begins with it.
    pub fn take(&mut self, state: &mut RelayState, item: RelayIncoming, ip: IpAddress) -> (r: RelayStep)
        requires
            old(state).wf(),
            old(self).phase matches RelayPhase::Open(c) ==> c.sequence < u64::MAX,
        ensures
            final(state).wf(),
            final(self).identity == old(self).identity,
            match old(self).phase {
                RelayPhase::Hello => match item {
                    RelayIncoming::Frame(frame) if greets(frame, old(self).identity.device_id@) => {
                        &&& r matches RelayStep::Attached(replaced) && is_replaced(
                            text::views(replaced@),
                            old(state)@.sessions,
                            old(self).identity@,
                        )
                        &&& final(self).phase matches RelayPhase::Open(c) && {
                            &&& c.identity == old(self).identity
                            &&& c.sequence == 0
                            &&& entropy::is_uuid(c.session_id@)
                            &&& final(state)@ == old(state)@.attached(
                                old(self).identity@,
                                c.session_id@,
                            )
                        }
                    },
                    _ => {
                        &&& r is Closed
                        &&& final(self).phase == RelayPhase::Closed(None)
                        &&& final(state)@ == old(state)@
                    },
                },
                RelayPhase::Open(c) => match item {
                    RelayIncoming::Frame(frame) => {
                        &&& r matches RelayStep::Act(action) && if action is Close {
                            &&& final(self).phase == RelayPhase::Closed(Some(c.session_id))
                            &&& exists|d: RelayConnection| #[trigger]
                                answers_limited(
                                    old(state)@,
                                    final(state)@,
                                    c,
                                    d,
                                    frame,
                                    ip,
                                    action,
                                )
                        } else {
                            final(self).phase matches RelayPhase::Open(d) && answers_limited(
                                old(state)@,
                                final(state)@,
                                c,
                                d,
                                frame,
                                ip,
                                action,
                            )
                        }
                    },
                    RelayIncoming::Failed => {
                        &&& r is Closed
                        &&& final(self).phase == RelayPhase::Closed(None)
                        &&& final(state)@ == old(state)@
                    },
                    RelayIncoming::Ended => {
                        &&& r is Closed
                        &&& final(self).phase == RelayPhase::Closed(Some(c.session_id))
                        &&& final(state)@ == old(state)@
                    },
                },
                RelayPhase::Closed(_) => {
                    &&& r is Closed
                    &&& *final(self) == *old(self)
                    &&& final(state)@ == old(state)@
                },
            },
    {
        match &mut self.phase {
            RelayPhase::Hello => {
                let ok = match &item {
                    RelayIncoming::Frame(frame) => handle_hello(frame, &self.identity),
                    _ => false,
                };
                if !ok {
                    self.phase = RelayPhase::Closed(None);
                    return RelayStep::Closed;
                }
                let (session_id, replaced) = state.attach(self.identity.clone());
                self.phase = RelayPhase::Open(
                    RelayConnection { identity: self.identity.clone(), session_id, sequence: 0 },
                );
                RelayStep::Attached(replaced)
            },
            RelayPhase::Open(c) => match item {
                RelayIncoming::Failed => {
                    self.phase = RelayPhase::Closed(None);
                    RelayStep::Closed
                },
                RelayIncoming::Ended => {
                    let id = c.session_id.clone();
                    self.phase = RelayPhase::Closed(Some(id));
                    RelayStep::Closed
                },
                RelayIncoming::Frame(frame) => {
                    let ghost before = state@;
                    let ghost c0 = *c;
                    let ghost f = frame;
                    let id = c.session_id.clone();
                    let action = c.handle_frame(state, frame, ip);
                    let ghost c1 = *c;
                    assert(answers_limited(before, state@, c0, c1, f, ip, action));
                    match &action {
                        RelayAction::Close => {
                            self.phase = RelayPhase::Closed(Some(id));
                        },
                        _ => {},
                    }
                    RelayStep::Act(action)
                },
            },
            RelayPhase::Closed(_) => RelayStep::Closed,
        }
    }

    /// Ends the connection: its place is freed, and its session taken out where it is
    /// still to be.
    pub fn finish(self, state: &mut RelayState)
        requires
            old(state).wf(),
            old(state)@.admission.active > 0,
        ensures
            final(state).wf(),
            ({
                let freed = RelayView {
                    admission: AdmissionView {
                        active: (old(state)@.admission.active - 1) as usize,
                        ..old(state)@.admission
                    },
                    ..old(state)@
                };
                final(state)@ == match self.phase {
                    RelayPhase::Hello => freed,
                    RelayPhase::Open(c) => freed.detached(c.session_id@),
                    RelayPhase::Closed(None) => freed,
                    RelayPhase::Closed(Some(id)) => freed.detached(id@),
                }
            }),
    {
        state.release_connection();
        match self.phase {
            RelayPhase::Hello => {},
            RelayPhase::Open(c) => state.detach(c.session_id.as_str()),
            RelayPhase::Closed(None) => {},
            RelayPhase::Closed(Some(id)) => state.detach(id.as_str()),
        }
    }
}

/// A session that was dropped hears nothing more.
pub proof fn law_dropped_session_hears_nothing(
    state: RelayView,
    id: Seq<char>,
    recipients: Seq<Seq<char>>,
    source: Seq<char>,
    group: Seq<char>,
    destination: Option<Seq<char>>,
    i: int,
)
    requires
        is_audience(recipients, state.detached(id), source, group, destination),
        0 <= i < recipients.len(),
    ensures
        recipients[i] != id,
{
}

/// The refusal of a request for a connection: a status and a body.
pub type Refusal = (u16, &'static str);

/// Begins to answer a request for a connection: the token it carries, where there is
/// room and the authorization header has one.
pub fn begin_upgrade(state: &mut RelayState, authorization: Option<&str>) -> (r: Result<String, Refusal>)
    requires
        old(state).wf(),
        old(state)@.admission.active < usize::MAX,
    ensures
        final(state).wf(),
        match r {
            Ok(token) => {
                &&& old(state)@.admission.has_room()
                &&& authorization is Some
                &&& text::has_prefix(authorization->Some_0@, "Bearer "@)
                &&& token@ == authorization->Some_0@.skip("Bearer "@.len() as int)
            },
            Err((status, body)) => if !old(state)@.admission.has_room() {
                status == 503 && body@ == "connection quota exceeded\n"@
            } else if authorization is None {
                status == 401 && body@ == "authorization required\n"@
            } else {
                &&& !text::has_prefix(authorization->Some_0@, "Bearer "@)
                &&& status == 401
                &&& body@ == "bearer token required\n"@
            },
        },
        final(state)@ == (RelayView {
            admission: AdmissionView {
                active: if r is Ok {
                    (old(state)@.admission.active + 1) as usize
                } else {
                    old(state)@.admission.active
                },
                ..old(state)@.admission
            },
            ..old(state)@
        }),
{
    if !state.try_connection() {
        return Err((503, "connection quota exceeded\n"));
    }
    match authorization {
        None => {
            state.release_connection();
            Err((401, "authorization required\n"))
        },
        Some(value) => match text::strip_prefix(value, "Bearer ") {
            None => {
                state.release_connection();
                Err((401, "bearer token required\n"))
            },
            Some(token) => Ok(token),
        },
    }
}

/// Ends the answer to a request for a connection once its token was looked up. One that
/// is not known frees its place.
pub fn finish_upgrade(state: &mut RelayState, verified: Result<RelayIdentity, AuthError>) -> (r: Result<
    RelayIdentity,
    Refusal,
>)
    requires
        old(state).wf(),
        old(state)@.admission.active > 0,
    ensures
        final(state).wf(),
        match r {
            Ok(identity) => verified == Ok::<RelayIdentity, AuthError>(identity) && final(state)@
                == old(state)@,
            Err((status, body)) => {
                &&& verified is Err
                &&& status == 401
                &&& body@ == "token rejected\n"@
                &&& final(state)@ == (RelayView {
                    admission: AdmissionView {
                        active: (old(state)@.admission.active - 1) as usize,
                        ..old(state)@.admission
                    },
                    ..old(state)@
                })
            },
        },
{
    match verified {
        Ok(identity) => Ok(identity),
        Err(_) => {
            state.release_connection();
            Err((401, "token rejected\n"))
        },
    }
}

/// The body of the answer that says the relay is well.
pub fn health_text(sessions: usize) -> (r: String)
    ensures
        r@ == "clipsync relay ok\nsessions "@ + text::decimal_of(sessions as nat) + "\n"@,
{
    let mut r = text::join("clipsync relay ok\nsessions ", text::decimal(sessions as u64).as_str());
    r.append("\n");
    r
}

/// The status and the body of the answer that says whether the relay takes connections.
pub fn ready_answer(shutting_down: bool) -> (r: Refusal)
    ensures
        r.0 == if shutting_down {
            503u16
        } else {
            200u16
        },
        r.1@ == if shutting_down {
            "clipsync relay not ready\n"@
        } else {
            "clipsync relay ready\n"@
        },
{
    if shutting_down {
        (503, "clipsync relay not ready\n")
    } else {
        (200, "clipsync relay ready\n")
    }
}

/// Whether `action` sends `sent` on: as it was, under the origin `source`, to every session
/// of another device in `group`, or of `destination` there, once each, and to nobody else.
pub open spec fn reaches_the_group(
    sessions: Map<Seq<char>, IdentityView>,
    source: Seq<char>,
    group: Seq<char>,
    destination: Option<Seq<char>>,
    sent: MessageView,
    action: RelayAction,
) -> bool {
    action matches RelayAction::Deliver(d) && {
        let to = text::views(d.recipients@);
        &&& sent is ClipboardText || sent is ClipboardImage || sent is ClipboardHtml
            ==> is_content_from(sent, d.message@, source)
        &&& !(sent is ClipboardText || sent is ClipboardImage || sent is ClipboardHtml)
            ==> d.message@ == sent
        &&& forall|k: Seq<char>| #[trigger]
            sessions.contains_key(k) && sessions[k].group_id == group && sessions[k].device_id
                != source && (destination is Some ==> sessions[k].device_id == destination->Some_0)
                ==> to.contains(k)
        &&& forall|i: int|
            0 <= i < to.len() ==> sessions.contains_key(#[trigger] to[i])
                && sessions[to[i]].group_id == group && sessions[to[i]].device_id != source && (
            destination is Some ==> sessions[to[i]].device_id == destination->Some_0)
        &&& forall|i: int, j: int|
            0 <= i < j < to.len() ==> #[trigger] to[i] != #[trigger] to[j]
    }
}

/// Whether the device `source` may send in `group` to `destination`, or to all: the group is
/// known, and both are members of it.
pub open spec fn may_send(
    groups: Map<Seq<char>, Set<Seq<char>>>,
    source: Seq<char>,
    destination: Option<Seq<char>>,
    group: Seq<char>,
) -> bool {
    groups.contains_key(group) && groups[group].contains(source) && (destination is Some
        ==> groups[group].contains(destination->Some_0))
}

proof fn lemma_reaches(
    state: RelayView,
    envelope: RelayEnvelope,
    source: Seq<char>,
    d: Delivery,
)
    requires
        d.message@ == envelope.payload@.with_origin(source),
        is_audience(
            text::views(d.recipients@),
            state,
            source,
            envelope.group@,
            opt_id(envelope.destination),
        ),
    ensures
        reaches_the_group(
            state.sessions,
            source,
            envelope.group@,
            opt_id(envelope.destination),
            envelope.payload@,
            RelayAction::Deliver(d),
        ),
{
    let p = hears(source, envelope.group@, opt_id(envelope.destination));
    let to = text::views(d.recipients@);
    assert forall|k: Seq<char>| #[trigger]
        state.sessions.contains_key(k) && state.sessions[k].group_id == envelope.group@
            && state.sessions[k].device_id != source && (opt_id(envelope.destination) is Some
            ==> state.sessions[k].device_id == opt_id(
            envelope.destination,
        )->Some_0) implies to.contains(k) by {
        assert(p(state.sessions[k]));
        assert(exists|i: int| 0 <= i < to.len() && #[trigger] to[i] == k);
    }
    assert forall|i: int| 0 <= i < to.len() implies state.sessions.contains_key(#[trigger] to[i])
        && state.sessions[to[i]].group_id == envelope.group@ && state.sessions[to[i]].device_id
        != source && (opt_id(envelope.destination) is Some ==> state.sessions[to[i]].device_id
        == opt_id(envelope.destination)->Some_0) by {
        assert(p(state.sessions[to[i]]));
    }
}

/// Every message of an open connection that is neither part of a handshake nor a sign of
/// life, text, images and markup among them, reaches the other devices of the sender's
/// group, whole and under the sender's name, where the session is the device's own, the
/// device is a member and its numbers are new.
pub proof fn law_messages_reach_the_group(
    c: &mut RelayConnection,
    state: &mut RelayState,
    frame: RelayFrame,
    r: RelayAction,
)
    requires
        call_ensures(RelayConnection::take, (c, state, frame), r),
        frame is Text,
        frame->content is Message,
        old(c).sequence < u64::MAX,
        ({
            let m = frame->content->Message_0;
            m is ClipboardText || m is ClipboardImage || m is ClipboardHtml || m is Error
        }),
        old(state)@.sessions.contains_key(old(c).session_id@),
        old(state)@.sessions[old(c).session_id@].device_id == old(c).identity.device_id.0@,
        may_send(
            old(state)@.groups,
            old(c).identity.device_id.0@,
            None,
            old(c).identity.group_id@,
        ),
        old(state)@.seen.contains_key(old(c).session_id@) ==> old(state)@.seen[old(c).session_id@]
            <= old(c).sequence,
    ensures
        reaches_the_group(
            old(state)@.sessions,
            old(c).identity.device_id.0@,
            old(c).identity.group_id@,
            None,
            frame->content->Message_0@,
            r,
        ),
        final(c).sequence == old(c).sequence + 1,
        final(c).session_id == old(c).session_id && final(c).identity == old(c).identity,
        final(state)@.sessions == old(state)@.sessions && final(state)@.groups
            == old(state)@.groups,
        final(state)@.seen.contains_key(old(c).session_id@)
            && final(state)@.seen[old(c).session_id@] == old(c).sequence + 1,
{
    let m = frame->content->Message_0@;
    let envelope = choose|envelope: RelayEnvelope|
        #[trigger] wraps(envelope, *old(c), (old(c).sequence + 1) as u64, m) && routes_to(
            old(state)@,
            final(state)@,
            envelope,
            old(c).identity.device_id@,
            r,
        );
    assert(wraps(envelope, *old(c), (old(c).sequence + 1) as u64, m));
    assert(route_refusal(old(state)@, envelope, old(c).identity.device_id@) is None);
    lemma_reaches(old(state)@, envelope, old(c).identity.device_id@, r->Deliver_0);
    assert(opt_id(envelope.destination) is None);
}

/// An envelope of this connection's own session reaches whom it is for, under the same
/// conditions; one of another sort or session, and one that the group does not allow or that
/// is not new, ends the connection.
pub proof fn law_envelopes_reach_their_devices(
    c: &mut RelayConnection,
    state: &mut RelayState,
    frame: RelayFrame,
    r: RelayAction,
)
    requires
        call_ensures(RelayConnection::take, (c, state, frame), r),
        frame is Text,
        frame->content is Envelope,
    ensures
        ({
            let e = frame->content->Envelope_0;
            let source = old(c).identity.device_id.0@;
            let to = opt_id(e.destination);
            let good = e.kind@ == "relay_envelope"@ && e.session_id@ == old(c).session_id@
                && e.source.0@ == source && old(state)@.sessions.contains_key(e.session_id@)
                && old(state)@.sessions[e.session_id@].device_id == source && may_send(
                old(state)@.groups,
                source,
                to,
                e.group@,
            ) && e.sequence > 0 && (old(state)@.seen.contains_key(e.session_id@)
                ==> old(state)@.seen[e.session_id@] < e.sequence);
            &&& good ==> reaches_the_group(
                old(state)@.sessions,
                source,
                e.group@,
                to,
                e.payload@,
                r,
            ) && final(state)@.seen.contains_key(e.session_id@)
                && final(state)@.seen[e.session_id@] == e.sequence
            &&& !good ==> r is Close
        }),
        final(c).sequence == old(c).sequence,
        final(state)@.sessions == old(state)@.sessions,
{
    let e = frame->content->Envelope_0;
    if e.kind@ == "relay_envelope"@ && e.session_id@ == old(c).session_id@ {
        let envelope = choose|envelope: RelayEnvelope|
            #[trigger] carries(envelope, e) && routes_to(
                old(state)@,
                final(state)@,
                envelope,
                old(c).identity.device_id@,
                r,
            );
        assert(carries(envelope, e));
        if route_refusal(old(state)@, envelope, old(c).identity.device_id@) is None {
            lemma_reaches(old(state)@, envelope, old(c).identity.device_id@, r->Deliver_0);
        }
    }
}

/// A ping is answered with its own time, a pong and frames of the transport are passed over,
/// and a message of the handshake, text that is neither a message nor an envelope, a binary
/// frame and a close end the connection; none of it changes what the relay holds.
pub proof fn law_other_frames(
    c: &mut RelayConnection,
    state: &mut RelayState,
    frame: RelayFrame,
    r: RelayAction,
)
    requires
        call_ensures(RelayConnection::take, (c, state, frame), r),
        !(frame is Text && frame->content is Envelope),
        !(frame is Text && frame->content is Message && (frame->content->Message_0 is ClipboardText
            || frame->content->Message_0 is ClipboardImage
            || frame->content->Message_0 is ClipboardHtml || frame->content->Message_0 is Error)),
    ensures
        frame is Text && frame->content is Message && frame->content->Message_0 is Ping ==> r
            is Reply && r->Reply_0@ == (MessageView::Pong {
            ts: frame->content->Message_0->Ping_ts,
        }),
        frame is Text && frame->content is Message && frame->content->Message_0 is Pong ==> r
            is Nothing,
        frame is Text && frame->content is Message && (frame->content->Message_0 is Hello
            || frame->content->Message_0 is PairChallenge
            || frame->content->Message_0 is PairSubmit || frame->content->Message_0 is PairOk
            || frame->content->Message_0 is PairFail) ==> r is Close,
        frame is Text && frame->content is Invalid ==> r is Close,
        frame is Binary || frame is Close ==> r is Close,
        frame is Ping || frame is Pong ==> r is Nothing,
        final(state)@ == old(state)@,
        final(c).sequence == old(c).sequence,
{
    if frame is Text && frame->content is Message {
        let m = frame->content->Message_0;
        assert(m@ is Ping <==> m is Ping);
        assert(m@ is Hello <==> m is Hello);
    }
}

/// A connection without limits passes a frame on as it is; what it sends reaches its group.
pub proof fn law_unlimited_connection(
    c: &mut RelayConnection,
    state: &mut RelayState,
    frame: RelayFrame,
    ip: IpAddress,
    r: RelayAction,
)
    requires
        call_ensures(RelayConnection::handle_frame, (c, state, frame, ip), r),
        old(state)@.admission.limits.messages_per_minute == 0,
        old(state)@.admission.limits.bytes_per_minute == 0,
        frame is Text,
        frame->content is Message,
        old(c).sequence < u64::MAX,
        ({
            let m = frame->content->Message_0;
            m is ClipboardText || m is ClipboardImage || m is ClipboardHtml
        }),
        old(state)@.sessions.contains_key(old(c).session_id@),
        old(state)@.sessions[old(c).session_id@].device_id == old(c).identity.device_id.0@,
        may_send(
            old(state)@.groups,
            old(c).identity.device_id.0@,
            None,
            old(c).identity.group_id@,
        ),
        old(state)@.seen.contains_key(old(c).session_id@) ==> old(state)@.seen[old(c).session_id@]
            <= old(c).sequence,
    ensures
        reaches_the_group(
            old(state)@.sessions,
            old(c).identity.device_id.0@,
            old(c).identity.group_id@,
            None,
            frame->content->Message_0@,
            r,
        ),
        final(c).sequence == old(c).sequence + 1,
{
    let m = frame->content->Message_0@;
    let envelope = choose|envelope: RelayEnvelope|
        #[trigger] wraps(envelope, *old(c), (old(c).sequence + 1) as u64, m) && routes_to(
            old(state)@,
            final(state)@,
            envelope,
            old(c).identity.device_id@,
            r,
        );
    assert(wraps(envelope, *old(c), (old(c).sequence + 1) as u64, m));
    assert(route_refusal(old(state)@, envelope, old(c).identity.device_id@) is None);
    lemma_reaches(old(state)@, envelope, old(c).identity.device_id@, r->Deliver_0);
    assert(opt_id(envelope.destination) is None);
}

/// An envelope is routed exactly where its session is that of the authenticated device, its
/// source is that device, its number is higher than all before it and its group has both as
/// members; it then reaches whom it is for.
pub proof fn law_routing(
    state: &mut RelayState,
    envelope: RelayEnvelope,
    source: &DeviceId,
    r: Result<Delivery, String>,
)
    requires
        call_ensures(RelayState::route_envelope, (state, envelope, source), r),
    ensures
        r is Ok <==> old(state)@.sessions.contains_key(envelope.session_id@)
            && old(state)@.sessions[envelope.session_id@].device_id == source.0@
            && envelope.source.0@ == source.0@ && envelope.sequence > 0 && (
        old(state)@.seen.contains_key(envelope.session_id@)
            ==> old(state)@.seen[envelope.session_id@] < envelope.sequence) && may_send(
            old(state)@.groups,
            source.0@,
            opt_id(envelope.destination),
            envelope.group@,
        ),
        r is Ok ==> reaches_the_group(
            old(state)@.sessions,
            source.0@,
            envelope.group@,
            opt_id(envelope.destination),
            envelope.payload@,
            RelayAction::Deliver(r->Ok_0),
        ),
        final(state)@.sessions == old(state)@.sessions && final(state)@.groups
            == old(state)@.groups && final(state)@.admission == old(state)@.admission,
        r is Ok ==> final(state)@.seen.contains_key(envelope.session_id@)
            && final(state)@.seen[envelope.session_id@] == envelope.sequence,
{
    if r is Ok {
        lemma_reaches(old(state)@, envelope, source@, r->Ok_0);
    }
}

/// A device that connects has one session, the new one, as who it is; its older sessions are
/// gone, with what was seen of them, and named. Everyone else stays connected.
pub proof fn law_attaching(
    state: &mut RelayState,
    identity: RelayIdentity,
    session_id: &SessionId,
    r: Vec<String>,
    k: Seq<char>,
)
    requires
        call_ensures(RelayState::attach_as, (state, identity, session_id), r),
        k != session_id@,
    ensures
        ({
            let s = final(state)@.sessions;
            let was = old(state)@.sessions;
            let same = was.contains_key(k) && was[k].account_id == identity.account_id@
                && was[k].device_id == identity.device_id.0@ && was[k].group_id
                == identity.group_id@;
            &&& s.contains_key(session_id@)
            &&& s[session_id@].account_id == identity.account_id@
            &&& s[session_id@].device_id == identity.device_id.0@
            &&& s[session_id@].group_id == identity.group_id@
            &&& s[session_id@].session_id == session_id@
            &&& same ==> !s.contains_key(k) && !final(state)@.seen.contains_key(k)
            &&& same <==> was.contains_key(k) && text::views(r@).contains(k)
            &&& !same ==> (s.contains_key(k) <==> was.contains_key(k))
            &&& !same && was.contains_key(k) ==> s[k] == was[k] && (final(state)@.seen.contains_key(k) <==> old(state)@.seen.contains_key(k))
        }),
        final(state)@.groups == old(state)@.groups,
{
    let l = text::views(r@);
    let p = is_device(identity@);
    let was = old(state)@.sessions;
    if was.contains_key(k) && is_same_device(was[k], identity@) {
        assert(p(was[k]));
        assert(exists|i: int| 0 <= i < l.len() && #[trigger] l[i] == k);
    }
    if l.contains(k) {
        let i = choose|i: int| 0 <= i < l.len() && l[i] == k;
        assert(p(was[l[i]]));
    }
}

/// The end of a session takes out that session, with what was seen of it, and no other.
pub proof fn law_detaching(state: &mut RelayState, session_id: &str, r: (), k: Seq<char>)
    requires
        call_ensures(RelayState::detach, (state, session_id), r),
    ensures
        !final(state)@.sessions.contains_key(session_id@),
        old(state)@.sessions.contains_key(session_id@) ==> !final(state)@.seen.contains_key(
            session_id@,
        ),
        k != session_id@ ==> (final(state)@.sessions.contains_key(k)
            <==> old(state)@.sessions.contains_key(k)) && (old(state)@.sessions.contains_key(k)
            ==> final(state)@.sessions[k] == old(state)@.sessions[k]) && (final(state)@.seen.contains_key(k) <==> old(state)@.seen.contains_key(k)),
        final(state)@.groups == old(state)@.groups,
{
}

/// The first frame of a relay connection must be `hello` in version 1 that names no other
/// device than the token's; it alone connects.
pub proof fn law_relay_greeting(
    p: &mut RelayPeer,
    state: &mut RelayState,
    item: RelayIncoming,
    ip: IpAddress,
    r: RelayStep,
)
    requires
        call_ensures(RelayPeer::take, (p, state, item, ip), r),
        old(p).phase is Hello,
    ensures
        r is Attached <==> item is Frame && item->Frame_0 is Text && item->Frame_0->content
            is Message && item->Frame_0->content->Message_0 is Hello
            && item->Frame_0->content->Message_0->v == 1 && (
        item->Frame_0->content->Message_0->device.id is Some
            ==> item->Frame_0->content->Message_0->device.id->Some_0.0@
            == old(p).identity.device_id.0@),
        !(r is Attached) ==> r is Closed && final(state)@ == old(state)@ && final(p).phase is Closed,
        r is Attached ==> final(p).phase is Open && {
            let c = final(p).phase->Open_0;
            &&& c.sequence == 0
            &&& c.identity == old(p).identity
            &&& final(state)@.sessions.contains_key(c.session_id@)
            &&& final(state)@.sessions[c.session_id@].device_id == old(p).identity.device_id.0@
            &&& final(state)@.sessions[c.session_id@].group_id == old(p).identity.group_id@
        },
{
    if item is Frame && item->Frame_0 is Text && item->Frame_0->content is Message {
        let m = item->Frame_0->content->Message_0;
        assert(m@ is Hello <==> m is Hello);
        if m is Hello {
            assert(m@->device.id == opt_id(m->device.id));
        }
    }
}

/// A request for a connection gives its token where there is room and its header bears one;
/// otherwise it is refused and takes no place.
pub proof fn law_relay_requests(
    state: &mut RelayState,
    authorization: Option<&str>,
    r: Result<String, Refusal>,
    token: Seq<char>,
)
    requires
        call_ensures(begin_upgrade, (state, authorization), r),
        old(state)@.admission.active < usize::MAX,
    ensures
        ({
            let max = old(state)@.admission.limits.max_connections;
            let room = max == 0 || old(state)@.admission.active < max;
            let header = seq!['B', 'e', 'a', 'r', 'e', 'r', ' '] + token;
            &&& room && authorization is Some && authorization->Some_0@ == header ==> r is Ok
                && r->Ok_0@ == token
            &&& !room ==> r is Err && r->Err_0.0 == 503
            &&& room && authorization is None ==> r is Err && r->Err_0.0 == 401
            &&& r is Ok ==> room && authorization is Some
        }),
        r is Ok ==> final(state)@.admission.active == old(state)@.admission.active + 1,
        r is Err ==> final(state)@.admission.active == old(state)@.admission.active,
        final(state)@.sessions == old(state)@.sessions,
{
    reveal_strlit("Bearer ");
    let b = seq!['B', 'e', 'a', 'r', 'e', 'r', ' '];
    assert("Bearer "@ =~= b);
    assert((b + token).take(7) =~= b);
    assert((b + token).skip(7) =~= token);
}

/// A token is known exactly by its digest, and the identity is that of the file's record;
/// the members of a group are the devices of its records.
pub proof fn law_tokens(
    p: &FileTokenProvider,
    token: &str,
    r: Result<RelayIdentity, AuthError>,
    groups: GroupAuthorizer,
    g: Seq<char>,
    d: Seq<char>,
)
    requires
        call_ensures(FileTokenProvider::verify, (p, token), r),
        call_ensures(FileTokenProvider::authorizer, (p,), groups),
    ensures
        ({
            let key = crate::encoding::hex_of(hashing::sha256(encode_utf8(token@)));
            &&& r is Ok <==> p@.contains_key(key)
            &&& r is Ok ==> r->Ok_0@ == p@[key]
            &&& r is Ok ==> groups@.contains_key(r->Ok_0.group_id@)
                && groups@[r->Ok_0.group_id@].contains(r->Ok_0.device_id.0@)
        }),
        groups@.contains_key(g) && groups@[g].contains(d) ==> exists|t: Seq<char>|
            p@.contains_key(t) && (#[trigger] p@[t]).group_id == g && p@[t].device_id == d,
{
    let key = token_key(token@);
    if p@.contains_key(key) {
        assert(p@[key].group_id == r->Ok_0.group_id@);
        assert(groups@.contains_key(r->Ok_0.group_id@));
        assert(groups@[r->Ok_0.group_id@].contains(r->Ok_0.device_id.0@));
    }
}

/// Two identities are one device where account, device and group agree.
pub proof fn law_same_device(a: &RelayIdentity, b: &RelayIdentity, r: bool)
    requires
        call_ensures(same_device, (a, b), r),
    ensures
        r <==> a.account_id@ == b.account_id@ && a.device_id.0@ == b.device_id.0@ && a.group_id@
            == b.group_id@,
{
}

/// An open relay connection without limits takes a frame as a frame: what it sends reaches
/// its group, and it stays open while nothing ends it. Its end leaves the session to be taken
/// out; a broken one leaves it to the next delivery.
pub proof fn law_relay_stages(
    p: &mut RelayPeer,
    state: &mut RelayState,
    item: RelayIncoming,
    ip: IpAddress,
    r: RelayStep,
)
    requires
        call_ensures(RelayPeer::take, (p, state, item, ip), r),
        old(p).phase is Open,
        old(p).phase->Open_0.sequence < u64::MAX,
        old(state)@.admission.limits.messages_per_minute == 0,
        old(state)@.admission.limits.bytes_per_minute == 0,
    ensures
        item is Ended ==> r is Closed && final(state)@ == old(state)@ && final(p).phase
            == RelayPhase::Closed(Some(old(p).phase->Open_0.session_id)),
        item is Failed ==> r is Closed && final(state)@ == old(state)@ && final(p).phase
            == RelayPhase::Closed(None),
        item is Frame ==> r is Act,
        ({
            let c = old(p).phase->Open_0;
            let frame = item->Frame_0;
            item is Frame && frame is Text && frame->content is Message && (
            frame->content->Message_0 is ClipboardText || frame->content->Message_0 is ClipboardImage
                || frame->content->Message_0 is ClipboardHtml)
                && old(state)@.sessions.contains_key(c.session_id@)
                && old(state)@.sessions[c.session_id@].device_id == c.identity.device_id.0@
                && may_send(old(state)@.groups, c.identity.device_id.0@, None, c.identity.group_id@)
                && (old(state)@.seen.contains_key(c.session_id@)
                ==> old(state)@.seen[c.session_id@] <= c.sequence) ==> final(p).phase is Open
                && final(p).phase->Open_0.sequence == c.sequence + 1 && reaches_the_group(
                old(state)@.sessions,
                c.identity.device_id.0@,
                c.identity.group_id@,
                None,
                frame->content->Message_0@,
                r->Act_0,
            )
        }),
        item is Frame && (item->Frame_0 is Binary || item->Frame_0 is Close) ==> r->Act_0 is Close
            && final(p).phase is Closed,
{
    let c = old(p).phase->Open_0;
    let frame = item->Frame_0;
    if item is Frame && frame is Text && frame->content is Message && (
    frame->content->Message_0 is ClipboardText || frame->content->Message_0 is ClipboardImage
        || frame->content->Message_0 is ClipboardHtml) && old(state)@.sessions.contains_key(
        c.session_id@,
    ) && old(state)@.sessions[c.session_id@].device_id == c.identity.device_id.0@ && may_send(
        old(state)@.groups,
        c.identity.device_id.0@,
        None,
        c.identity.group_id@,
    ) && (old(state)@.seen.contains_key(c.session_id@) ==> old(state)@.seen[c.session_id@]
        <= c.sequence) {
        let m = frame->content->Message_0@;
        let envelope = choose|envelope: RelayEnvelope|
            #[trigger] wraps(envelope, c, (c.sequence + 1) as u64, m) && routes_to(
                old(state)@,
                final(state)@,
                envelope,
                c.identity.device_id@,
                r->Act_0,
            );
        assert(wraps(envelope, c, (c.sequence + 1) as u64, m));
        assert(route_refusal(old(state)@, envelope, c.identity.device_id@) is None);
        lemma_reaches(old(state)@, envelope, c.identity.device_id@, r->Act_0->Deliver_0);
        assert(opt_id(envelope.destination) is None);
    }
}

/// A relay runs with its part of the settings, and under TLS alone.
pub proof fn law_relay_settings(config: &Config, r: Result<RelayConfig, String>, limit: usize)
    requires
        call_ensures(RelayConfig::from_config, (config,), r),
        call_ensures(
            crate::config::ClipboardConfig::max_websocket_message_bytes,
            (&config.clipboard,),
            limit,
        ),
    ensures
        r is Ok <==> config.security.transport == Transport::Tls,
        r is Ok ==> r->Ok_0.bind == config.bind && r->Ok_0.security == config.security
            && r->Ok_0.limits == config.limits && r->Ok_0.max_message_bytes == limit
            && r->Ok_0.queue_capacity == 64,
{
}

/// The end of a relay connection frees its place and takes its session out where it is named;
/// everyone else stays.
pub proof fn law_relay_end(p: RelayPeer, state: &mut RelayState, r: (), k: Seq<char>)
    requires
        call_ensures(RelayPeer::finish, (p, state), r),
        old(state)@.admission.active > 0,
    ensures
        final(state)@.admission.active == old(state)@.admission.active - 1,
        p.phase is Open ==> !final(state)@.sessions.contains_key(p.phase->Open_0.session_id@),
        p.phase is Closed && p.phase->Closed_0 is Some ==> !final(state)@.sessions.contains_key(
            p.phase->Closed_0->Some_0@,
        ),
        old(state)@.sessions.contains_key(k) && !(p.phase is Open && k
            == p.phase->Open_0.session_id@) && !(p.phase is Closed && p.phase->Closed_0 is Some && k
            == p.phase->Closed_0->Some_0@) ==> final(state)@.sessions.contains_key(k)
            && final(state)@.sessions[k] == old(state)@.sessions[k],
        final(state)@.sessions.contains_key(k) ==> old(state)@.sessions.contains_key(k),
{
}

/// Sessions that cannot keep up are taken out, and no others.
pub proof fn law_dropping(state: &mut RelayState, ids: &Vec<String>, r: (), k: Seq<char>)
    requires
        call_ensures(RelayState::drop_sessions, (state, ids), r),
    ensures
        text::views(ids@).contains(k) ==> !final(state)@.sessions.contains_key(k),
        !text::views(ids@).contains(k) ==> (final(state)@.sessions.contains_key(k)
            <==> old(state)@.sessions.contains_key(k)) && (old(state)@.sessions.contains_key(k)
            ==> final(state)@.sessions[k] == old(state)@.sessions[k]),
{
    lemma_dropped_state(old(state)@, text::views(ids@), k);
}

proof fn lemma_dropped_state(s: RelayView, ids: Seq<Seq<char>>, k: Seq<char>)
    ensures
        ids.contains(k) ==> !dropped_state(s, ids).sessions.contains_key(k),
        !ids.contains(k) ==> (dropped_state(s, ids).sessions.contains_key(k)
            <==> s.sessions.contains_key(k)) && (s.sessions.contains_key(k) ==> dropped_state(
            s,
            ids,
        ).sessions[k] == s.sessions[k]),
    decreases ids.len(),
{
    if ids.len() > 0 {
        let d = ids.drop_last();
        lemma_dropped_state(s, d, k);
        if ids.contains(k) {
            let i = choose|i: int| 0 <= i < ids.len() && ids[i] == k;
            if i < d.len() {
                assert(d[i] == k);
            }
        } else {
            assert(ids[ids.len() - 1] != k);
            if d.contains(k) {
                let i = choose|i: int| 0 <= i < d.len() && d[i] == k;
                assert(ids[i] == k);
            }
        }
    }
}

/// Whether a line of a token file bears a credential.
pub open spec fn bears_token(line: Seq<char>) -> bool {
    text::trim_of(line).len() > 0 && text::trim_of(line)[0] != '#'
}

/// Whether `w` are the words of a line whose credential `m` holds.
pub open spec fn is_held(m: Map<Seq<char>, IdentityView>, w: Seq<Seq<char>>) -> bool {
    let key = crate::encoding::hex_of(hashing::sha256(encode_utf8(w[0])));
    &&& w.len() == 5
    &&& m.contains_key(key)
    &&& m[key].account_id == w[1] && m[key].device_id == w[2] && m[key].session_id == w[3]
        && m[key].group_id == w[4]
}

/// Whether `w` and `x` begin with tokens that are kept apart.
pub open spec fn apart(w: Seq<Seq<char>>, x: Seq<Seq<char>>) -> bool {
    hashing::sha256(encode_utf8(w[0])) != hashing::sha256(encode_utf8(x[0]))
}

proof fn lemma_token_keys(a: Seq<char>, b: Seq<char>)
    ensures
        token_key(a) == crate::encoding::hex_of(hashing::sha256(encode_utf8(a))),
        token_key(a) == token_key(b) <==> hashing::sha256(encode_utf8(a)) == hashing::sha256(
            encode_utf8(b),
        ),
{
    crate::encoding::law_hex_round_trip(hashing::sha256(encode_utf8(a)));
    crate::encoding::law_hex_round_trip(hashing::sha256(encode_utf8(b)));
}

proof fn lemma_tokens_held(lines: Seq<Seq<char>>)
    requires
        tokens_of(lines) is Ok,
    ensures
        forall|i: int|
            0 <= i < lines.len() && bears_token(#[trigger] lines[i]) ==> is_held(
                tokens_of(lines)->Ok_0,
                text::words_of(lines[i]),
            ),
        forall|k: Seq<char>| #[trigger]
            tokens_of(lines)->Ok_0.contains_key(k) ==> exists|i: int|
                0 <= i < lines.len() && bears_token(#[trigger] lines[i]) && token_key(
                    text::words_of(lines[i])[0],
                ) == k,
    decreases lines.len(),
{
    if lines.len() > 0 {
        let d = lines.drop_last();
        lemma_tokens_held(d);
        let before = tokens_of(d)->Ok_0;
        let after = tokens_of(lines)->Ok_0;
        assert forall|i: int|
            0 <= i < lines.len() && bears_token(#[trigger] lines[i]) implies is_held(
            after,
            text::words_of(lines[i]),
        ) by {
            let w = text::words_of(lines[i]);
            lemma_token_keys(w[0], w[0]);
            if i < d.len() {
                assert(d[i] == lines[i]);
                assert(is_held(before, w));
            } else {
                assert(lines[i] == lines.last());
            }
        }
        assert forall|k: Seq<char>| #[trigger] after.contains_key(k) implies exists|i: int|
            0 <= i < lines.len() && bears_token(#[trigger] lines[i]) && token_key(
                text::words_of(lines[i])[0],
            ) == k by {
            if before.contains_key(k) {
                let i = choose|i: int|
                    0 <= i < d.len() && bears_token(#[trigger] d[i]) && token_key(
                        text::words_of(d[i])[0],
                    ) == k;
                assert(lines[i] == d[i]);
            } else {
                assert(bears_token(lines[lines.len() - 1]));
            }
        }
    }
}

proof fn lemma_tokens_accepted(lines: Seq<Seq<char>>)
    requires
        forall|i: int|
            0 <= i < lines.len() && bears_token(#[trigger] lines[i]) ==> text::words_of(
                lines[i],
            ).len() == 5,
        forall|i: int, j: int|
            0 <= i < j < lines.len() && bears_token(#[trigger] lines[i]) && bears_token(
                #[trigger] lines[j],
            ) ==> apart(text::words_of(lines[i]), text::words_of(lines[j])),
    ensures
        tokens_of(lines) is Ok,
    decreases lines.len(),
{
    if lines.len() > 0 {
        let d = lines.drop_last();
        assert forall|i: int|
            0 <= i < d.len() && bears_token(#[trigger] d[i]) implies text::words_of(d[i]).len()
            == 5 by {
            assert(d[i] == lines[i]);
        }
        assert forall|i: int, j: int|
            0 <= i < j < d.len() && bears_token(#[trigger] d[i]) && bears_token(
                #[trigger] d[j],
            ) implies apart(text::words_of(d[i]), text::words_of(d[j])) by {
            assert(d[i] == lines[i] && d[j] == lines[j]);
        }
        lemma_tokens_accepted(d);
        lemma_tokens_held(d);
        let last = lines.last();
        if bears_token(last) {
            let f = text::words_of(last);
            assert(lines[lines.len() - 1] == last);
            text::lemma_words_not_blank(last);
            let m = tokens_of(d)->Ok_0;
            if m.contains_key(token_key(f[0])) {
                let i = choose|i: int|
                    0 <= i < d.len() && bears_token(#[trigger] d[i]) && token_key(
                        text::words_of(d[i])[0],
                    ) == token_key(f[0]);
                assert(d[i] == lines[i]);
                lemma_token_keys(text::words_of(d[i])[0], f[0]);
                assert(apart(text::words_of(lines[i]), text::words_of(lines[lines.len() - 1])));
            }
        }
    }
}

/// A token file that is read holds the credential of every line that bears one and no other;
/// it is read where each such line has five words, their tokens are apart, and there is one
/// at all. One that others than its owner may read is not read.
pub proof fn law_token_files(
    contents: &str,
    r: Result<FileTokenProvider, String>,
    mode: u32,
    owned: Result<FileTokenProvider, String>,
    i: int,
    k: Seq<char>,
)
    requires
        call_ensures(FileTokenProvider::from_text, (contents,), r),
        call_ensures(FileTokenProvider::from_file, (mode, contents), owned),
    ensures
        ({
            let l = text::lines_of(contents@);
            &&& r is Ok && 0 <= i < l.len() && bears_token(l[i]) ==> is_held(
                r->Ok_0@,
                text::words_of(l[i]),
            )
            &&& r is Ok && r->Ok_0@.contains_key(k) ==> exists|i: int|
                0 <= i < l.len() && bears_token(#[trigger] l[i]) && k == crate::encoding::hex_of(
                    hashing::sha256(encode_utf8(text::words_of(l[i])[0])),
                )
            &&& (forall|i: int|
                0 <= i < l.len() && bears_token(#[trigger] l[i]) ==> text::words_of(l[i]).len()
                    == 5) && (forall|i: int, j: int|
                0 <= i < j < l.len() && bears_token(#[trigger] l[i]) && bears_token(
                    #[trigger] l[j],
                ) ==> apart(text::words_of(l[i]), text::words_of(l[j]))) && (exists|i: int|
                0 <= i < l.len() && bears_token(#[trigger] l[i])) ==> r is Ok
            &&& (forall|i: int| 0 <= i < l.len() ==> !bears_token(#[trigger] l[i])) ==> r is Err
        }),
        mode % 64 != 0 ==> owned is Err,
        mode % 64 == 0 ==> (owned is Ok <==> r is Ok) && (r is Ok ==> owned->Ok_0@ == r->Ok_0@) && (
        r is Err ==> owned->Err_0@ == r->Err_0@),
{
    let l = text::lines_of(contents@);
    if tokens_of(l) is Ok {
        lemma_tokens_held(l);
        let m = tokens_of(l)->Ok_0;
        if forall|i: int| 0 <= i < l.len() ==> !bears_token(#[trigger] l[i]) {
            assert forall|k: Seq<char>| !m.contains_key(k) by {}
            assert(m =~= Map::<Seq<char>, IdentityView>::empty());
        }
        if m.contains_key(k) {
            let i = choose|i: int|
                0 <= i < l.len() && bears_token(#[trigger] l[i]) && token_key(
                    text::words_of(l[i])[0],
                ) == k;
            lemma_token_keys(text::words_of(l[i])[0], text::words_of(l[i])[0]);
        }
    }
    if (forall|i: int|
        0 <= i < l.len() && bears_token(#[trigger] l[i]) ==> text::words_of(l[i]).len() == 5) && (
    forall|i: int, j: int|
        0 <= i < j < l.len() && bears_token(#[trigger] l[i]) && bears_token(#[trigger] l[j])
            ==> apart(text::words_of(l[i]), text::words_of(l[j]))) && (exists|i: int|
        0 <= i < l.len() && bears_token(#[trigger] l[i])) {
        lemma_tokens_accepted(l);
        lemma_tokens_held(l);
        let i = choose|i: int| 0 <= i < l.len() && bears_token(#[trigger] l[i]);
        assert(is_held(tokens_of(l)->Ok_0, text::words_of(l[i])));
    }
}

/// A refused token is answered so and frees its place; an accepted one changes nothing.
pub proof fn law_upgrades(
    state: &mut RelayState,
    verified: Result<RelayIdentity, AuthError>,
    r: Result<RelayIdentity, Refusal>,
)
    requires
        call_ensures(finish_upgrade, (state, verified), r),
        old(state)@.admission.active > 0,
    ensures
        verified is Ok ==> r is Ok && r->Ok_0 == verified->Ok_0 && final(state)@ == old(state)@,
        verified is Err ==> r is Err && r->Err_0.0 == 401 && final(state)@.admission.active
            == old(state)@.admission.active - 1 && final(state)@.sessions == old(state)@.sessions
            && final(state)@.groups == old(state)@.groups && final(state)@.seen
            == old(state)@.seen,
{
}

/// A frame counts for the bytes that it was said to have, a closing one for none.
pub proof fn law_relay_frame_sizes(frame: RelayFrame, n: usize)
    requires
        call_ensures(RelayFrame::size, (&frame,), n),
    ensures
        frame is Text ==> n == frame->Text_size,
        frame is Binary ==> n == frame->Binary_size,
        frame is Ping ==> n == frame->Ping_size,
        frame is Pong ==> n == frame->Pong_size,
        frame is Close ==> n == 0,
{
}

/// Under limits what is sent still reaches its group, or the connection is closed; what is
/// taken is counted for its address, and a frame that is larger than a whole minute may be
/// never is.
pub proof fn law_limited_relay_connection(
    c: &mut RelayConnection,
    state: &mut RelayState,
    frame: RelayFrame,
    ip: IpAddress,
    n: usize,
    r: RelayAction,
)
    requires
        call_ensures(RelayConnection::handle_frame, (c, state, frame, ip), r),
        call_ensures(RelayFrame::size, (&frame,), n),
        old(c).sequence < u64::MAX,
    ensures
        0 < old(state)@.admission.limits.bytes_per_minute < n ==> r is Close && *final(c)
            == *old(c) && final(state)@.seen == old(state)@.seen,
        final(state)@.sessions == old(state)@.sessions && final(state)@.groups
            == old(state)@.groups,
        old(state)@.admission.limits.messages_per_minute > 0 && r is Deliver ==> {
            let w = final(state)@.admission.windows;
            &&& w.contains_key(ip)
            &&& 1 <= w[ip].messages <= old(state)@.admission.limits.messages_per_minute
            &&& w[ip].bytes >= n
        },
        frame is Text && frame->content is Message && (frame->content->Message_0 is ClipboardText
            || frame->content->Message_0 is ClipboardImage || frame->content->Message_0
            is ClipboardHtml) && old(state)@.sessions.contains_key(old(c).session_id@)
            && old(state)@.sessions[old(c).session_id@].device_id == old(c).identity.device_id.0@
            && may_send(
            old(state)@.groups,
            old(c).identity.device_id.0@,
            None,
            old(c).identity.group_id@,
        ) && (old(state)@.seen.contains_key(old(c).session_id@)
            ==> old(state)@.seen[old(c).session_id@] <= old(c).sequence) ==> reaches_the_group(
            old(state)@.sessions,
            old(c).identity.device_id.0@,
            old(c).identity.group_id@,
            None,
            frame->content->Message_0@,
            r,
        ) || r is Close,
{
    let before = old(state)@;
    let a = before.admission;
    let now = choose|now: u128|
        #![trigger a.allows(ip, frame.bytes() as int, now)]
        {
            let counted = RelayView {
                admission: a.after_message(ip, frame.bytes() as int, now),
                ..before
            };
            if a.allows(ip, frame.bytes() as int, now) {
                &&& answers(counted, final(state)@, *old(c), frame, r)
                &&& *final(c) == (RelayConnection {
                    sequence: if is_counted(frame) {
                        (old(c).sequence + 1) as u64
                    } else {
                        old(c).sequence
                    },
                    ..*old(c)
                })
            } else {
                r is Close && final(state)@ == counted && *final(c) == *old(c)
            }
        };
    let counted = RelayView { admission: a.after_message(ip, frame.bytes() as int, now), ..before };
    assert(a.allows(ip, frame.bytes() as int, now) || r is Close);
    if a.allows(ip, frame.bytes() as int, now) && frame is Text && frame->content is Message && (
    frame->content->Message_0 is ClipboardText || frame->content->Message_0 is ClipboardImage
        || frame->content->Message_0 is ClipboardHtml) {
        let m = frame->content->Message_0@;
        let envelope = choose|envelope: RelayEnvelope|
            #[trigger] wraps(envelope, *old(c), (old(c).sequence + 1) as u64, m) && routes_to(
                counted,
                final(state)@,
                envelope,
                old(c).identity.device_id@,
                r,
            );
        assert(wraps(envelope, *old(c), (old(c).sequence + 1) as u64, m));
        assert(opt_id(envelope.destination) is None);
        if route_refusal(counted, envelope, old(c).identity.device_id@) is None {
            lemma_reaches(counted, envelope, old(c).identity.device_id@, r->Deliver_0);
        }
    }
}

/// The words for each reason that an envelope is refused for: its session first, then its
/// source, its number, its group and the members of that.
pub proof fn law_refused_envelopes(
    state: &mut RelayState,
    envelope: RelayEnvelope,
    source: &DeviceId,
    r: Result<Delivery, String>,
)
    requires
        call_ensures(RelayState::route_envelope, (state, envelope, source), r),
    ensures
        ({
            let s = old(state)@;
            let own = s.sessions.contains_key(envelope.session_id@)
                && s.sessions[envelope.session_id@].device_id == source.0@;
            let same = envelope.source.0@ == source.0@;
            let new = envelope.sequence > 0 && (s.seen.contains_key(envelope.session_id@)
                ==> s.seen[envelope.session_id@] < envelope.sequence);
            let known = s.groups.contains_key(envelope.group@);
            let member = s.groups[envelope.group@].contains(source.0@);
            &&& !own ==> r is Err && r->Err_0@ == "authorization rejected: inactive session"@
            &&& own && !same ==> r is Err && r->Err_0@ == "authorization rejected: "@
                + "SourceMismatch"@
            &&& own && same && !new ==> r is Err && r->Err_0@ == "authorization rejected: "@
                + "Replay"@
            &&& own && same && new && !known ==> r is Err && r->Err_0@
                == "authorization rejected: "@ + "UnknownGroup"@
            &&& own && same && new && known && !member ==> r is Err && r->Err_0@
                == "authorization rejected: "@ + "SourceNotMember"@
            &&& own && same && new && known && member && envelope.destination is Some
                && !s.groups[envelope.group@].contains(envelope.destination->Some_0.0@) ==> r is Err
                && r->Err_0@ == "authorization rejected: "@ + "DestinationNotMember"@
        }),
{
}

/// A token file is refused by the number of its first line that has not five words, where the
/// lines before it are good.
pub proof fn law_bad_token_line(contents: &str, r: Result<FileTokenProvider, String>, n: int)
    requires
        call_ensures(FileTokenProvider::from_text, (contents,), r),
        0 <= n < text::lines_of(contents@).len(),
        bears_token(text::lines_of(contents@)[n]),
        text::words_of(text::lines_of(contents@)[n]).len() != 5,
        forall|i: int|
            0 <= i < n && bears_token(#[trigger] text::lines_of(contents@)[i]) ==> text::words_of(
                text::lines_of(contents@)[i],
            ).len() == 5,
        forall|i: int, j: int|
            0 <= i < j < n && bears_token(#[trigger] text::lines_of(contents@)[i]) && bears_token(
                #[trigger] text::lines_of(contents@)[j],
            ) ==> apart(
                text::words_of(text::lines_of(contents@)[i]),
                text::words_of(text::lines_of(contents@)[j]),
            ),
    ensures
        r is Err,
        r->Err_0@ == "token file line "@ + text::decimal_of((n + 1) as nat)
            + ": expected 5 fields"@,
{
    let l = text::lines_of(contents@);
    let front = l.take(n);
    assert forall|i: int| 0 <= i < front.len() && bears_token(#[trigger] front[i]) implies
        text::words_of(front[i]).len() == 5 by {
        assert(front[i] == l[i]);
    }
    assert forall|i: int, j: int|
        0 <= i < j < front.len() && bears_token(#[trigger] front[i]) && bears_token(
            #[trigger] front[j],
        ) implies apart(text::words_of(front[i]), text::words_of(front[j])) by {
        assert(front[i] == l[i] && front[j] == l[j]);
    }
    lemma_tokens_accepted(front);
    assert(l.take(n + 1).drop_last() =~= front);
    assert(l.take(n + 1).last() == l[n]);
    lemma_tokens_error(l, n + 1);
}

} // verus!
