//! Finding servers on the local network: what is announced, and what a search gathers.

use vstd::prelude::*;
use vstd::utf8::encode_utf8;

use crate::protocol::DeviceId;
use crate::server::{IpAddress, SocketAddress};
use crate::sort;
use crate::table;
use crate::table::Table;
use crate::text;

verus! {

/// Whether a character beyond ASCII is a letter or a digit in Unicode.
pub uninterp spec fn is_alphanumeric(c: char) -> bool;

/// Whether `c` is a letter or a digit.
pub open spec fn letter_or_digit(c: char) -> bool {
    if c <= '\u{7f}' {
        ('0' <= c <= '9') || ('a' <= c <= 'z') || ('A' <= c <= 'Z')
    } else {
        is_alphanumeric(c)
    }
}

/// `char::is_alphanumeric`: within ASCII the letters and the digits, beyond it a function
/// of the character, by Unicode's tables.
#[verifier::external_body]
fn alphanumeric(c: char) -> (r: bool)
    ensures
        c <= '\u{7f}' ==> r == (('0' <= c <= '9') || ('a' <= c <= 'z') || ('A' <= c <= 'Z')),
        c > '\u{7f}' ==> r == is_alphanumeric(c),
{
    c.is_alphanumeric()
}

/// Whether `c` may stand in a name.
pub open spec fn is_name_char(c: char) -> bool {
    letter_or_digit(c) || c == '-' || c == '_'
}

/// `c`, or a hyphen where it may not stand in a name.
pub open spec fn clean_char(c: char) -> char {
    if is_name_char(c) {
        c
    } else {
        '-'
    }
}

/// `s` with a hyphen for each character that may not stand in a name.
pub open spec fn clean_of(s: Seq<char>) -> Seq<char> {
    s.map_values(|c: char| clean_char(c))
}

/// `s` without the hyphens at its start.
pub open spec fn no_leading(s: Seq<char>) -> Seq<char>
    decreases s.len(),
{
    if s.len() > 0 && s[0] == '-' {
        no_leading(s.skip(1))
    } else {
        s
    }
}

/// `s` without the hyphens at its end.
pub open spec fn no_trailing(s: Seq<char>) -> Seq<char>
    decreases s.len(),
{
    if s.len() > 0 && s.last() == '-' {
        no_trailing(s.drop_last())
    } else {
        s
    }
}

/// A name as a service instance, before it is cut to length.
pub open spec fn instance_of(name: Seq<char>) -> Seq<char> {
    let t = no_trailing(no_leading(clean_of(name)));
    if t.len() == 0 {
        "clipsync-host"@
    } else {
        t
    }
}

/// The longest beginning of a service instance that has at most 63 bytes.
pub open spec fn cut_of(s: Seq<char>) -> Seq<char>
    decreases s.len(),
{
    if s.len() == 0 || encode_utf8(s).len() <= 63 {
        s
    } else {
        cut_of(s.drop_last())
    }
}

fn clean(name: &str) -> (r: Vec<char>)
    ensures
        r@ == instance_of(name@),
{
    let c = text::to_chars(name);
    let mut x: Vec<char> = Vec::new();
    let mut i: usize = 0;
    while i < c.len()
        invariant
            i <= c@.len(),
            x@ == clean_of(c@.take(i as int)),
        decreases c@.len() - i,
    {
        let ch = c[i];
        if alphanumeric(ch) || ch == '-' || ch == '_' {
            x.push(ch);
        } else {
            x.push('-');
        }
        i = i + 1;
        assert(x@ =~= clean_of(c@.take(i as int)));
    }
    assert(c@.take(i as int) =~= c@);
    let mut start: usize = 0;
    assert(x@.skip(0) =~= x@);
    while start < x.len() && x[start] == '-'
        invariant
            start <= x@.len(),
            no_leading(x@.skip(start as int)) == no_leading(x@),
        decreases x@.len() - start,
    {
        assert(x@.skip(start as int).skip(1) =~= x@.skip(start + 1));
        start = start + 1;
    }
    let ghost t = x@.skip(start as int);
    let mut end: usize = x.len();
    assert(x@.subrange(start as int, end as int) =~= t);
    while end > start && x[end - 1] == '-'
        invariant
            start <= end <= x@.len(),
            no_trailing(x@.subrange(start as int, end as int)) == no_trailing(t),
        decreases end,
    {
        assert(x@.subrange(start as int, end as int).drop_last() =~= x@.subrange(
            start as int,
            end - 1,
        ));
        end = end - 1;
    }
    if start == end {
        return text::to_chars("clipsync-host");
    }
    vstd::slice::slice_to_vec(vstd::slice::slice_subrange(x.as_slice(), start, end))
}

/// A name as a service instance: letters, digits, hyphens and underscores, the hyphens at
/// its ends dropped, and of that at most 63 bytes.
pub fn sanitize_instance(name: &str) -> (r: String)
    ensures
        r@ == cut_of(instance_of(name@)),
{
    cut(&clean(name))
}

proof fn lemma_encode_push(s: Seq<char>, c: char)
    ensures
        encode_utf8(s.push(c)) == encode_utf8(s) + encode_utf8(seq![c]),
        encode_utf8(seq![c]).len() > 0,
    decreases s.len(),
{
    let one = seq![c];
    assert(one.skip(1) =~= Seq::<char>::empty());
    assert(one.drop_first() =~= Seq::<char>::empty());
    assert(encode_utf8(Seq::<char>::empty()) =~= Seq::<u8>::empty());
    if s.len() == 0 {
        assert(s.push(c) =~= one);
        assert(encode_utf8(s) =~= Seq::<u8>::empty());
        assert(encode_utf8(s) + encode_utf8(one) =~= encode_utf8(one));
    } else {
        lemma_encode_push(s.drop_first(), c);
        assert(s.push(c).drop_first() =~= s.drop_first().push(c));
        assert(encode_utf8(s.push(c)) =~= encode_utf8(s) + encode_utf8(one));
    }
    vstd::utf8::char_is_scalar(c);
}

fn cut(c: &Vec<char>) -> (r: String)
    ensures
        r@ == cut_of(c@),
{
    let mut r = String::new();
    let mut i: usize = 0;
    assert(encode_utf8(Seq::<char>::empty()) =~= Seq::<u8>::empty());
    assert(c@.take(0) =~= Seq::<char>::empty());
    assert(r@ =~= c@.take(0));
    while i < c.len()
        invariant
            i <= c@.len(),
            r@ == c@.take(i as int),
            encode_utf8(c@.take(i as int)).len() <= 63,
        decreases c@.len() - i,
    {
        r.push(c[i]);
        assert(r@ =~= c@.take(i + 1));
        if r.as_str().as_bytes().len() > 63 {
            proof {
                lemma_cut(c@, i as int, c@.len() as int);
                assert(c@.take(c@.len() as int) =~= c@);
            }
            return text::from_chars(vstd::slice::slice_subrange(c.as_slice(), 0, i));
        }
        i = i + 1;
    }
    assert(c@.take(i as int) =~= c@);
    r
}

proof fn lemma_cut(c: Seq<char>, m: int, n: int)
    requires
        0 <= m < n <= c.len(),
        encode_utf8(c.take(m)).len() <= 63,
        encode_utf8(c.take(m + 1)).len() > 63,
    ensures
        cut_of(c.take(n)) == c.take(m),
    decreases n - m,
{
    lemma_encode_grows(c, m + 1, n);
    assert(c.take(n).drop_last() =~= c.take(n - 1));
    if n > m + 1 {
        lemma_cut(c, m, n - 1);
    }
}

proof fn lemma_encode_grows(c: Seq<char>, m: int, n: int)
    requires
        0 <= m <= n <= c.len(),
    ensures
        encode_utf8(c.take(m)).len() <= encode_utf8(c.take(n)).len(),
    decreases n - m,
{
    if m < n {
        lemma_encode_grows(c, m, n - 1);
        lemma_encode_push(c.take(n - 1), c[n - 1]);
        assert(c.take(n) =~= c.take(n - 1).push(c[n - 1]));
    }
}

proof fn lemma_cut_fits(s: Seq<char>)
    requires
        s.len() > 0,
    ensures
        cut_of(s).len() > 0,
        encode_utf8(cut_of(s)).len() <= 63,
        forall|i: int| 0 <= i < cut_of(s).len() ==> #[trigger] cut_of(s)[i] == s[i],
        cut_of(s).len() <= s.len(),
    decreases s.len(),
{
    if s.len() == 1 {
        assert(s.drop_first() =~= Seq::<char>::empty());
        assert(encode_utf8(Seq::<char>::empty()) =~= Seq::<u8>::empty());
        assert(encode_utf8(s).len() <= 4);
    } else if encode_utf8(s).len() > 63 {
        lemma_cut_fits(s.drop_last());
    }
}

proof fn lemma_trimmed_chars(s: Seq<char>)
    ensures
        s.len() > 0 && s[0] == '-' ==> no_leading(s) == no_leading(s.skip(1)),
        forall|i: int| 0 <= i < no_leading(s).len() ==> s.contains(#[trigger] no_leading(s)[i]),
        forall|i: int| 0 <= i < no_trailing(s).len() ==> s.contains(#[trigger] no_trailing(s)[i]),
    decreases s.len(),
{
    if s.len() > 0 {
        lemma_trimmed_chars(s.skip(1));
        lemma_trimmed_chars(s.drop_last());
        assert forall|i: int| 0 <= i < no_leading(s).len() implies s.contains(
            #[trigger] no_leading(s)[i],
        ) by {
            if s[0] == '-' {
                let c = no_leading(s.skip(1))[i];
                let k = choose|k: int| 0 <= k < s.skip(1).len() && s.skip(1)[k] == c;
                assert(s[k + 1] == c);
            }
        }
        assert forall|i: int| 0 <= i < no_trailing(s).len() implies s.contains(
            #[trigger] no_trailing(s)[i],
        ) by {
            if s.last() == '-' {
                let c = no_trailing(s.drop_last())[i];
                let k = choose|k: int| 0 <= k < s.drop_last().len() && s.drop_last()[k] == c;
                assert(s[k] == c);
            }
        }
    }
}

proof fn lemma_instance_chars(name: Seq<char>)
    ensures
        instance_of(name).len() > 0,
        forall|i: int|
            0 <= i < instance_of(name).len() ==> is_name_char(#[trigger] instance_of(name)[i]),
{
    let x = clean_of(name);
    let y = no_leading(x);
    let t = no_trailing(y);
    reveal_strlit("clipsync-host");
    lemma_trimmed_chars(x);
    lemma_trimmed_chars(y);
    if t.len() > 0 {
        assert forall|i: int| 0 <= i < t.len() implies is_name_char(#[trigger] t[i]) by {
            assert(y.contains(t[i]));
            let k = choose|k: int| 0 <= k < y.len() && y[k] == t[i];
            assert(x.contains(y[k]));
            let j = choose|j: int| 0 <= j < x.len() && x[j] == y[k];
            assert(x[j] == clean_char(name[j]));
        }
    }
}

/// Whatever the name, a service instance has 1 to 63 bytes, each of its characters a
/// letter, a digit, a hyphen or an underscore; a cleaned name that fits is kept whole.
pub proof fn law_instance_is_valid(name: Seq<char>, i: int)
    ensures
        1 <= encode_utf8(cut_of(instance_of(name))).len() <= 63,
        0 <= i < cut_of(instance_of(name)).len() ==> is_name_char(cut_of(instance_of(name))[i]),
        encode_utf8(instance_of(name)).len() <= 63 ==> cut_of(instance_of(name)) == instance_of(
            name,
        ),
{
    lemma_instance_chars(name);
    let s = instance_of(name);
    lemma_cut_fits(s);
    let r = cut_of(s);
    assert(r =~= r.drop_last().push(r.last()));
    lemma_encode_push(r.drop_last(), r.last());
    if 0 <= i < r.len() {
        assert(r[i] == s[i]);
    }
}

/// The address to announce: an IPv4 address that others can reach.
pub fn announced_ip(local: IpAddress) -> (r: Option<u32>)
    ensures
        r == match local {
            IpAddress::V4(n) => if 0x7f00_0000 <= n <= 0x7fff_ffff {
                None
            } else {
                Some(n)
            },
            IpAddress::V6(_) => None,
        },
{
    match local {
        IpAddress::V4(n) => if n / 16_777_216 == 127 {
            None
        } else {
            Some(n)
        },
        IpAddress::V6(_) => None,
    }
}

/// An IPv4 address in its usual form.
pub open spec fn dotted_of(n: u32) -> Seq<char> {
    text::decimal_of((n / 16_777_216) as nat) + "."@ + text::decimal_of((n / 65_536 % 256) as nat)
        + "."@ + text::decimal_of((n / 256 % 256) as nat) + "."@ + text::decimal_of(
        (n % 256) as nat,
    )
}

/// An IPv4 address in its usual form.
pub fn dotted(n: u32) -> (r: String)
    ensures
        r@ == dotted_of(n),
{
    let mut r = text::decimal((n / 16_777_216) as u64);
    r.append(".");
    r.append(text::decimal((n / 65_536 % 256) as u64).as_str());
    r.append(".");
    r.append(text::decimal((n / 256 % 256) as u64).as_str());
    r.append(".");
    r.append(text::decimal((n % 256) as u64).as_str());
    r
}

/// A service type in full, with the dot at its end.
pub open spec fn full_type_of(service_type: Seq<char>) -> Seq<char> {
    if service_type.len() > 0 && service_type.last() == '.' {
        service_type
    } else {
        service_type.push('.')
    }
}

/// A service type in full, as the settings may leave out the dot at its end.
pub fn full_type(service_type: &str) -> (r: String)
    ensures
        r@ == full_type_of(service_type@),
{
    let c = text::to_chars(service_type);
    let mut r = service_type.to_owned();
    if c.len() == 0 || c[c.len() - 1] != '.' {
        r.push('.');
    }
    r
}

/// The contents of a list of pairs of texts.
pub open spec fn pairs(l: Seq<(String, String)>) -> Seq<(Seq<char>, Seq<char>)> {
    l.map_values(|p: (String, String)| (p.0@, p.1@))
}

/// What is announced beside the address: the server's stable identifier among it, and
/// under TLS the fingerprint of its certificate.
pub open spec fn properties_of(
    name: Seq<char>,
    port: u16,
    ip: u32,
    server_id: Seq<char>,
    fingerprint: Option<Seq<char>>,
    version: Seq<char>,
) -> Seq<(Seq<char>, Seq<char>)> {
    let base = seq![
        ("name"@, name),
        ("protocol"@, "v1"@),
        ("port"@, text::decimal_of(port as nat)),
        ("host"@, dotted_of(ip)),
        ("server_id"@, server_id),
        ("version"@, version),
        ("platform"@, "linux"@),
        ("cap_text"@, "1"@),
        ("cap_image"@, "1"@),
        ("cap_html"@, "0"@),
        ("cap_files"@, "0"@),
    ];
    match fingerprint {
        Some(f) => base.push(("tls"@, "1"@)).push(("tls_fingerprint"@, f)),
        None => base,
    }
}

/// What is announced beside the address.
pub fn txt_properties(
    name: &str,
    port: u16,
    ip: u32,
    server_id: &DeviceId,
    fingerprint: Option<&str>,
    version: &str,
) -> (r: Vec<(String, String)>)
    ensures
        pairs(r@) == properties_of(
            name@,
            port,
            ip,
            server_id@,
            match fingerprint {
                Some(f) => Some(f@),
                None => None,
            },
            version@,
        ),
{
    let mut r: Vec<(String, String)> = Vec::new();
    r.push(("name".to_owned(), name.to_owned()));
    r.push(("protocol".to_owned(), "v1".to_owned()));
    r.push(("port".to_owned(), text::decimal(port as u64)));
    r.push(("host".to_owned(), dotted(ip)));
    r.push(("server_id".to_owned(), server_id.to_string()));
    r.push(("version".to_owned(), version.to_owned()));
    r.push(("platform".to_owned(), "linux".to_owned()));
    r.push(("cap_text".to_owned(), "1".to_owned()));
    r.push(("cap_image".to_owned(), "1".to_owned()));
    r.push(("cap_html".to_owned(), "0".to_owned()));
    r.push(("cap_files".to_owned(), "0".to_owned()));
    match fingerprint {
        Some(f) => {
            r.push(("tls".to_owned(), "1".to_owned()));
            r.push(("tls_fingerprint".to_owned(), f.to_owned()));
        },
        None => {},
    }
    assert(pairs(r@) =~= properties_of(
        name@,
        port,
        ip,
        server_id@,
        match fingerprint {
            Some(f) => Some(f@),
            None => None,
        },
        version@,
    ));
    r
}

/// A server that a search found.
#[derive(Debug, PartialEq, Eq)]
pub struct DiscoveredService {
    pub fullname: String,
    pub instance: String,
    pub port: u16,
    pub addrs: Vec<IpAddress>,
    pub properties: Vec<(String, String)>,
}

/// The contents of a `DiscoveredService`.
pub struct ServiceView {
    pub fullname: Seq<char>,
    pub instance: Seq<char>,
    pub port: u16,
    pub addrs: Seq<IpAddress>,
    pub properties: Seq<(Seq<char>, Seq<char>)>,
}

impl View for DiscoveredService {
    type V = ServiceView;

    open spec fn view(&self) -> ServiceView {
        ServiceView {
            fullname: self.fullname@,
            instance: self.instance@,
            port: self.port,
            addrs: self.addrs@,
            properties: pairs(self.properties@),
        }
    }
}

fn copy_pairs(l: &Vec<(String, String)>) -> (r: Vec<(String, String)>)
    ensures
        r@ == l@,
{
    let mut r: Vec<(String, String)> = Vec::new();
    let mut i: usize = 0;
    while i < l.len()
        invariant
            i <= l@.len(),
            r@ == l@.take(i as int),
        decreases l@.len() - i,
    {
        r.push((l[i].0.clone(), l[i].1.clone()));
        i = i + 1;
        assert(r@ =~= l@.take(i as int));
    }
    assert(l@.take(i as int) =~= l@);
    r
}

impl Clone for DiscoveredService {
    fn clone(&self) -> (r: Self)
        ensures
            r@ == self@,
    {
        DiscoveredService {
            fullname: self.fullname.clone(),
            instance: self.instance.clone(),
            port: self.port,
            addrs: vstd::slice::slice_to_vec(self.addrs.as_slice()),
            properties: copy_pairs(&self.properties),
        }
    }
}

impl DiscoveredService {
    /// The addresses of the server with its port.
    pub fn socket_addrs(&self) -> (r: Vec<SocketAddress>)
        ensures
            r@ == self.addrs@.map_values(
                |ip: IpAddress| SocketAddress { ip, port: self.port },
            ),
    {
        let mut r: Vec<SocketAddress> = Vec::new();
        let mut i: usize = 0;
        let ghost want = self.addrs@.map_values(
            |ip: IpAddress| SocketAddress { ip, port: self.port },
        );
        while i < self.addrs.len()
            invariant
                i <= self.addrs@.len(),
                want == self.addrs@.map_values(
                    |ip: IpAddress| SocketAddress { ip, port: self.port },
                ),
                r@ == want.take(i as int),
            decreases self.addrs@.len() - i,
        {
            r.push(SocketAddress { ip: self.addrs[i], port: self.port });
            i = i + 1;
            assert(r@ =~= want.take(i as int));
        }
        assert(want.take(i as int) =~= want);
        r
    }
}

/// `s` without the endings `suffix` at its end, however many.
pub open spec fn without_endings(s: Seq<char>, suffix: Seq<char>) -> Seq<char>
    decreases s.len(),
{
    if suffix.len() > 0 && s.len() >= suffix.len() && s.skip(s.len() - suffix.len()) == suffix {
        without_endings(s.take(s.len() - suffix.len()), suffix)
    } else {
        s
    }
}

/// The name of a host without its domain.
pub fn host_instance(hostname: &str) -> (r: String)
    ensures
        r@ == without_endings(hostname@, ".local."@),
{
    let c = text::to_chars(hostname);
    let suffix = text::to_chars(".local.");
    proof {
        reveal_strlit(".local.");
    }
    let n: usize = suffix.len();
    let mut end: usize = c.len();
    assert(c@.take(end as int) =~= c@);
    while end >= n
        invariant
            end <= c@.len(),
            n == suffix@.len(),
            n > 0,
            suffix@ == ".local."@,
            c@ == hostname@,
            without_endings(c@.take(end as int), suffix@) == without_endings(c@, suffix@),
        decreases end,
    {
        let tail = vstd::slice::slice_subrange(c.as_slice(), end - n, end);
        let ghost s = c@.take(end as int);
        assert(s.skip(s.len() - n) =~= tail@);
        let mut same = true;
        let mut i: usize = 0;
        while i < n && same
            invariant
                i <= n,
                n == suffix@.len(),
                tail@.len() == n,
                same ==> forall|k: int| 0 <= k < i ==> #[trigger] tail@[k] == suffix@[k],
                !same ==> tail@ != suffix@,
            decreases n - i + if same { 1int } else { 0int },
        {
            if tail[i] != suffix[i] {
                same = false;
            } else {
                i = i + 1;
            }
        }
        if !same {
            let r = from_prefix(&c, end);
            return r;
        }
        assert(tail@ =~= suffix@);
        assert(s.take(s.len() - n) =~= c@.take(end - n));
        end = end - n;
    }
    from_prefix(&c, end)
}

fn from_prefix(c: &Vec<char>, end: usize) -> (r: String)
    requires
        end <= c@.len(),
    ensures
        r@ == c@.take(end as int),
{
    let r = text::from_chars(vstd::slice::slice_subrange(c.as_slice(), 0, end));
    assert(r@ =~= c@.take(end as int));
    r
}

/// What a search is told.
#[derive(Debug)]
pub enum BrowseEvent {
    /// A server was found, or found again.
    Resolved(DiscoveredService),
    /// The server of that full name is gone.
    Removed(String),
    /// Something else, which changes nothing.
    Other,
}

/// A search under way. Times are nanoseconds of a steady clock.
pub struct Browse {
    seen: Table<DiscoveredService>,
    last_change: u128,
    deadline: u128,
    settle: u128,
}

/// The contents of a `Browse`.
pub struct BrowseView {
    pub seen: Map<Seq<char>, ServiceView>,
    pub last_change: u128,
    pub deadline: u128,
    pub settle: u128,
}

impl View for Browse {
    type V = BrowseView;

    closed spec fn view(&self) -> BrowseView {
        BrowseView {
            seen: self.seen@.map_values(|s: DiscoveredService| s@),
            last_change: self.last_change,
            deadline: self.deadline,
            settle: self.settle,
        }
    }
}

impl BrowseView {
    /// The search after `event` at `now`.
    pub open spec fn after(self, event: BrowseEvent, now: u128) -> BrowseView {
        match event {
            BrowseEvent::Resolved(s) => BrowseView {
                seen: self.seen.insert(s.fullname@, s@),
                last_change: now,
                ..self
            },
            BrowseEvent::Removed(fullname) => BrowseView {
                seen: self.seen.remove(fullname@),
                last_change: now,
                ..self
            },
            BrowseEvent::Other => self,
        }
    }

    /// Whether nothing has changed for long enough.
    pub open spec fn settled(self, now: u128) -> bool {
        now - self.last_change >= self.settle
    }
}

/// Whether the instance of `a` comes before that of `b`.
pub open spec fn instance_before() -> spec_fn(ServiceView, ServiceView) -> bool {
    |a: ServiceView, b: ServiceView| text::precedes(a.instance, b.instance)
}

/// The key that a server is kept under.
pub open spec fn own_name() -> spec_fn(ServiceView) -> Seq<char> {
    |s: ServiceView| s.fullname
}

/// The contents of a list of servers.
pub open spec fn services(l: Seq<DiscoveredService>) -> Seq<ServiceView> {
    l.map_values(|s: DiscoveredService| s@)
}

impl Browse {
    pub closed spec fn wf(&self) -> bool {
        &&& self.seen.wf()
        &&& forall|k: Seq<char>| #[trigger]
            self.seen@.contains_key(k) ==> self.seen@[k].fullname@ == k
    }

    /// A search from `now` on that ends after `timeout`, or once nothing has changed for
    /// `settle`.
    pub fn new(now: u128, timeout: u128, settle: u128) -> (r: Self)
        requires
            now + timeout <= u128::MAX,
        ensures
            r.wf(),
            r@ == (BrowseView {
                seen: Map::empty(),
                last_change: now,
                deadline: (now + timeout) as u128,
                settle,
            }),
    {
        let r = Browse { seen: Table::new(), last_change: now, deadline: now + timeout, settle };
        assert(r@.seen =~= Map::<Seq<char>, ServiceView>::empty());
        r
    }

    /// How long the search may still wait at `now`; none where its time is over.
    pub fn remaining(&self, now: u128) -> (r: Option<u128>)
        ensures
            r == if now < self@.deadline {
                Some((self@.deadline - now) as u128)
            } else {
                None
            },
    {
        if now < self.deadline {
            Some(self.deadline - now)
        } else {
            None
        }
    }

    /// Takes in an event at `now`; whether the search goes on.
    pub fn take(&mut self, event: BrowseEvent, now: u128) -> (r: bool)
        requires
            old(self).wf(),
        ensures
            final(self).wf(),
            final(self)@ == old(self)@.after(event, now),
            r == !final(self)@.settled(now),
    {
        let ghost before = self@;
        match event {
            BrowseEvent::Resolved(s) => {
                self.seen.insert(s.fullname.clone(), s);
                self.last_change = now;
                assert(self@.seen =~= before.seen.insert(s.fullname@, s@));
            },
            BrowseEvent::Removed(fullname) => {
                let _ = self.seen.remove(fullname.as_str());
                self.last_change = now;
                assert(self@.seen =~= before.seen.remove(fullname@));
            },
            BrowseEvent::Other => {},
        }
        !(now >= self.last_change && now - self.last_change >= self.settle)
    }

    /// What the search found, in the order of the instances.
    pub fn finish(&self) -> (r: Vec<DiscoveredService>)
        requires
            self.wf(),
        ensures
            table::lists_all(services(r@), own_name(), self@.seen),
            forall|i: int, j: int|
                0 <= i < j < r@.len() ==> !text::precedes(
                    (#[trigger] r@[j]).instance@,
                    (#[trigger] r@[i]).instance@,
                ),
    {
        let n: usize = self.seen.len();
        let ghost l = self.seen.list();
        let ghost source = l.map_values(|e: (Seq<char>, DiscoveredService)| e.1@);
        let ghost order = |i: int, j: int| instance_before()(source[i], source[j]);
        let before = |i: usize, j: usize| -> (b: bool)
            requires
                i < self.seen.list().len(),
                j < self.seen.list().len(),
            ensures
                b == text::precedes(
                    self.seen.list()[i as int].1.instance@,
                    self.seen.list()[j as int].1.instance@,
                ),
            {
                text::comes_before(
                    self.seen.value_at(i).instance.as_str(),
                    self.seen.value_at(j).instance.as_str(),
                )
            };
        proof {
            assert forall|i: int, j: int|
                0 <= i < source.len() && 0 <= j < source.len() && #[trigger] order(
                    i,
                    j,
                ) implies !order(j, i) by {
                text::lemma_precedes_asymmetric(source[i].instance, source[j].instance);
            }
            assert forall|i: int, j: int, k: int|
                0 <= i < source.len() && 0 <= j < source.len() && 0 <= k < source.len() && !(
                #[trigger] order(i, j)) && !(#[trigger] order(j, k)) implies !order(i, k) by {
                text::lemma_precedes_negatively_transitive(
                    source[i].instance,
                    source[j].instance,
                    source[k].instance,
                );
            }
        }
        let p = sort::stable_order(n, before, Ghost(order));
        let mut r: Vec<DiscoveredService> = Vec::new();
        let mut i: usize = 0;
        while i < p.len()
            invariant
                i <= p@.len(),
                l == self.seen.list(),
                source == l.map_values(|e: (Seq<char>, DiscoveredService)| e.1@),
                sort::is_arrangement(p@, l.len()),
                r@.len() == i,
                forall|k: int| 0 <= k < i ==> (#[trigger] r@[k])@ == source[p@[k] as int],
            decreases p@.len() - i,
        {
            r.push(self.seen.value_at(p[i]).clone());
            i = i + 1;
        }
        proof {
            let out = services(r@);
            assert(sort::is_stable(p@, |i: int, j: int| instance_before()(source[i], source[j])));
            assert forall|i: int| 0 <= i < out.len() implies #[trigger] out[i]
                == source[p@[i] as int] by {
                assert(r@[i]@ == source[p@[i] as int]);
            }
            assert(sort::is_arrangement(p@, source.len()));
            assert(sort::is_sorted_from(source, out, instance_before()));
            let entries = l.map_values(|e: (Seq<char>, DiscoveredService)| (e.0, e.1@));
            lemma_view_entries(l);
            assert(table::map_of(entries) =~= self@.seen);
            assert(table::distinct(entries)) by {
                assert forall|i: int, j: int| 0 <= i < j < entries.len() implies (
                #[trigger] entries[i]).0 != (#[trigger] entries[j]).0 by {
                    assert(l[i].0 != l[j].0);
                }
            }
            table::lemma_entries_list_all(entries, source, own_name());
            sort::lemma_sorted_lists_all(source, out, instance_before(), own_name(), self@.seen);
            assert forall|i: int, j: int| 0 <= i < j < r@.len() implies !text::precedes(
                (#[trigger] r@[j]).instance@,
                (#[trigger] r@[i]).instance@,
            ) by {
                assert(!instance_before()(out[j], out[i]));
            }
        }
        r
    }
}

/// Texts with `", "` between them.
pub open spec fn joined(l: Seq<Seq<char>>) -> Seq<char>
    decreases l.len(),
{
    if l.len() == 0 {
        Seq::empty()
    } else if l.len() == 1 {
        l[0]
    } else {
        joined(l.drop_last()) + ", "@ + l.last()
    }
}

fn join_all(l: &Vec<String>) -> (r: String)
    ensures
        r@ == joined(text::views(l@)),
{
    let mut r = String::new();
    let mut i: usize = 0;
    let ghost v = text::views(l@);
    assert(r@ =~= joined(v.take(0)));
    while i < l.len()
        invariant
            i <= l@.len(),
            v == text::views(l@),
            r@ == joined(v.take(i as int)),
        decreases l@.len() - i,
    {
        if i > 0 {
            r.append(", ");
        }
        r.append(l[i].as_str());
        assert(v.take(i + 1).drop_last() =~= v.take(i as int));
        assert(v.take(i + 1).last() == l@[i as int]@);
        assert(r@ =~= joined(v.take(i + 1)));
        i = i + 1;
    }
    assert(v.take(i as int) =~= v);
    r
}

/// Whether the pair `a` comes before `b`: by its first text, then by its second.
pub open spec fn pair_before() -> spec_fn((String, String), (String, String)) -> bool {
    |a: (String, String), b: (String, String)|
        text::precedes(a.0@, b.0@) || (!text::precedes(b.0@, a.0@) && text::precedes(a.1@, b.1@))
}

/// The lines for properties: a key and a value each.
pub open spec fn property_lines(l: Seq<(String, String)>) -> Seq<Seq<char>> {
    l.map_values(|p: (String, String)| "    "@ + p.0@ + ": "@ + p.1@)
}

/// Whether `lines` describes a server whose addresses read `addrs`.
pub open spec fn describes(
    lines: Seq<Seq<char>>,
    s: DiscoveredService,
    addrs: Seq<Seq<char>>,
) -> bool {
    exists|l: Seq<(String, String)>|
        #[trigger] sort::is_sorted_from(s.properties@, l, pair_before()) && lines == seq![
            "  "@ + s.instance@,
            "    Endereços: "@ + joined(addrs),
            "    Porta: "@ + text::decimal_of(s.port as nat),
        ] + property_lines(l)
}

/// The lines that describe a server that was found; `addrs` are its addresses in words.
/// Its properties come in the order of their keys.
pub fn service_lines(s: &DiscoveredService, addrs: &Vec<String>) -> (r: Vec<String>)
    ensures
        describes(text::views(r@), *s, text::views(addrs@)),
{
    let mut r: Vec<String> = Vec::new();
    r.push(text::join("  ", s.instance.as_str()));
    r.push(text::join("    Endereços: ", join_all(addrs).as_str()));
    r.push(text::join("    Porta: ", text::decimal(s.port as u64).as_str()));
    let ghost head = text::views(r@);
    assert(head =~= seq![
        "  "@ + s.instance@,
        "    Endereços: "@ + joined(text::views(addrs@)),
        "    Porta: "@ + text::decimal_of(s.port as nat),
    ]);
    let ghost source = s.properties@;
    let ghost order = |i: int, j: int| pair_before()(source[i], source[j]);
    let before = |i: usize, j: usize| -> (b: bool)
        requires
            i < s.properties@.len(),
            j < s.properties@.len(),
        ensures
            b == pair_before()(s.properties@[i as int], s.properties@[j as int]),
        {
            let x = &s.properties[i];
            let y = &s.properties[j];
            text::comes_before(x.0.as_str(), y.0.as_str()) || (!text::comes_before(
                y.0.as_str(),
                x.0.as_str(),
            ) && text::comes_before(x.1.as_str(), y.1.as_str()))
        };
    proof {
        assert forall|i: int, j: int|
            0 <= i < source.len() && 0 <= j < source.len() && #[trigger] order(
                i,
                j,
            ) implies !order(j, i) by {
            lemma_pair_asymmetric(source[i], source[j]);
        }
        assert forall|i: int, j: int, k: int|
            0 <= i < source.len() && 0 <= j < source.len() && 0 <= k < source.len() && !(
            #[trigger] order(i, j)) && !(#[trigger] order(j, k)) implies !order(i, k) by {
            lemma_pair_negatively_transitive(source[i], source[j], source[k]);
        }
    }
    let p = sort::stable_order(s.properties.len(), before, Ghost(order));
    let ghost l = Seq::new(p@.len(), |i: int| source[p@[i] as int]);
    proof {
        assert(sort::is_arrangement(p@, source.len()));
        assert(sort::is_stable(p@, |i: int, j: int| pair_before()(source[i], source[j])));
        assert(sort::is_sorted_from(source, l, pair_before()));
    }
    let mut i: usize = 0;
    assert(text::views(r@) =~= head + property_lines(l.take(0)));
    while i < p.len()
        invariant
            i <= p@.len(),
            source == s.properties@,
            sort::is_arrangement(p@, source.len()),
            l == Seq::new(p@.len(), |i: int| source[p@[i] as int]),
            text::views(r@) == head + property_lines(l.take(i as int)),
        decreases p@.len() - i,
    {
        let e = &s.properties[p[i]];
        let mut t = text::join("    ", e.0.as_str());
        t.append(": ");
        t.append(e.1.as_str());
        let ghost was = text::views(r@);
        r.push(t);
        assert(text::views(r@) =~= was.push(t@));
        assert(property_lines(l.take(i + 1)) =~= property_lines(l.take(i as int)).push(t@));
        assert(text::views(r@) =~= head + property_lines(l.take(i + 1)));
        i = i + 1;
    }
    assert(l.take(i as int) =~= l);
    r
}

proof fn lemma_pair_asymmetric(a: (String, String), b: (String, String))
    requires
        pair_before()(a, b),
    ensures
        !pair_before()(b, a),
{
    if text::precedes(a.0@, b.0@) {
        text::lemma_precedes_asymmetric(a.0@, b.0@);
    } else {
        text::lemma_precedes_asymmetric(a.1@, b.1@);
    }
}

proof fn lemma_pair_negatively_transitive(
    a: (String, String),
    b: (String, String),
    c: (String, String),
)
    requires
        !pair_before()(a, b),
        !pair_before()(b, c),
    ensures
        !pair_before()(a, c),
{
    text::lemma_precedes_negatively_transitive(a.0@, b.0@, c.0@);
    if !text::precedes(c.0@, a.0@) {
        // a, b and c are then equal in their first texts
        if text::precedes(b.0@, a.0@) {
            if !text::precedes(c.0@, a.0@) && !text::precedes(b.0@, c.0@) {
                text::lemma_precedes_negatively_transitive(b.0@, c.0@, a.0@);
            }
        }
        if text::precedes(c.0@, b.0@) {
            if !text::precedes(a.0@, b.0@) && !text::precedes(c.0@, a.0@) {
                text::lemma_precedes_negatively_transitive(c.0@, a.0@, b.0@);
            }
        }
        text::lemma_precedes_negatively_transitive(a.1@, b.1@, c.1@);
    }
}

proof fn lemma_view_entries(l: Seq<(Seq<char>, DiscoveredService)>)
    ensures
        table::map_of(l.map_values(|e: (Seq<char>, DiscoveredService)| (e.0, e.1@)))
            == table::map_of(l).map_values(|s: DiscoveredService| s@),
    decreases l.len(),
{
    let e = l.map_values(|e: (Seq<char>, DiscoveredService)| (e.0, e.1@));
    if l.len() > 0 {
        lemma_view_entries(l.drop_last());
        assert(e.drop_last() =~= l.drop_last().map_values(
            |e: (Seq<char>, DiscoveredService)| (e.0, e.1@),
        ));
    }
    assert(table::map_of(e) =~= table::map_of(l).map_values(|s: DiscoveredService| s@));
}

/// Whether `c` is an ASCII letter or digit, or an underscore.
pub open spec fn is_plain(c: char) -> bool {
    ('a' <= c <= 'z') || ('A' <= c <= 'Z') || ('0' <= c <= '9') || c == '_'
}

/// A name of at most 63 plain characters, with hyphens between them, is its own instance; a
/// space in it becomes a hyphen, and a name of hyphens and spaces alone is `clipsync-host`.
pub proof fn law_instances(name: &str, r: String)
    requires
        call_ensures(sanitize_instance, (name,), r),
    ensures
        0 < name@.len() <= 63 && is_plain(name@[0]) && is_plain(name@[name@.len() - 1]) && (forall|
            i: int,
        |
            0 <= i < name@.len() ==> is_plain(#[trigger] name@[i]) || name@[i] == '-' || name@[i]
                == ' ') ==> r@.len() == name@.len() && forall|i: int|
            0 <= i < r@.len() ==> #[trigger] r@[i] == (if name@[i] == ' ' {
                '-'
            } else {
                name@[i]
            }),
        (forall|i: int| 0 <= i < name@.len() ==> #[trigger] name@[i] == '-' || name@[i] == ' ')
            ==> r@ == "clipsync-host"@,
        1 <= encode_utf8(r@).len() <= 63,
{
    law_instance_is_valid(name@, 0);
    let x = clean_of(name@);
    if 0 < name@.len() <= 63 && is_plain(name@[0]) && is_plain(name@[name@.len() - 1]) && (forall|
        i: int,
    |
        0 <= i < name@.len() ==> is_plain(#[trigger] name@[i]) || name@[i] == '-' || name@[i]
            == ' ') {
        assert(x[0] == name@[0]);
        assert(x.last() == name@[name@.len() - 1]);
        assert(instance_of(name@) == x);
        assert forall|i: int| 0 <= i < x.len() implies '\0' <= #[trigger] x[i] <= '\u{7f}' by {
            assert(x[i] == clean_char(name@[i]));
        }
        vstd::utf8::is_ascii_chars_encode_utf8(x);
        assert(cut_of(x) == x);
    }
    if forall|i: int| 0 <= i < name@.len() ==> #[trigger] name@[i] == '-' || name@[i] == ' ' {
        assert forall|i: int| 0 <= i < x.len() implies #[trigger] x[i] == '-' by {
            assert(x[i] == clean_char(name@[i]));
        }
        lemma_all_hyphens(x);
        assert(no_trailing(Seq::<char>::empty()) =~= Seq::<char>::empty());
        reveal_strlit("clipsync-host");
        let h = "clipsync-host"@;
        assert(vstd::utf8::is_ascii_chars(h));
        vstd::utf8::is_ascii_chars_encode_utf8(h);
        assert(cut_of(h) == h);
    }
}

proof fn lemma_all_hyphens(s: Seq<char>)
    requires
        forall|i: int| 0 <= i < s.len() ==> #[trigger] s[i] == '-',
    ensures
        no_leading(s) == Seq::<char>::empty(),
    decreases s.len(),
{
    if s.len() > 0 {
        assert(s[0] == '-');
        assert forall|i: int| 0 <= i < s.skip(1).len() implies #[trigger] s.skip(1)[i] == '-' by {
            assert(s.skip(1)[i] == s[i + 1]);
        }
        lemma_all_hyphens(s.skip(1));
    } else {
        assert(no_leading(s) =~= Seq::<char>::empty());
    }
}

/// Whether `l` tells `value` under `key`.
pub open spec fn tells(l: Seq<(String, String)>, key: Seq<char>, value: Seq<char>) -> bool {
    exists|i: int| 0 <= i < l.len() && (#[trigger] l[i]).0@ == key && l[i].1@ == value
}

/// A server announces its name, its protocol, its port and its address, who it is, what it
/// runs and what it takes part in; under TLS it says so, with its fingerprint, and else not.
pub proof fn law_announcements(
    name: &str,
    port: u16,
    ip: u32,
    id: &DeviceId,
    fingerprint: Option<&str>,
    version: &str,
    r: Vec<(String, String)>,
    address: String,
)
    requires
        call_ensures(txt_properties, (name, port, ip, id, fingerprint, version), r),
        call_ensures(dotted, (ip,), address),
    ensures
        tells(r@, "name"@, name@),
        tells(r@, "protocol"@, "v1"@),
        tells(r@, "port"@, text::decimal_of(port as nat)),
        tells(r@, "host"@, address@),
        tells(r@, "server_id"@, id.0@),
        tells(r@, "version"@, version@),
        tells(r@, "platform"@, "linux"@),
        tells(r@, "cap_text"@, "1"@) && tells(r@, "cap_image"@, "1"@),
        tells(r@, "cap_html"@, "0"@) && tells(r@, "cap_files"@, "0"@),
        fingerprint is Some ==> tells(r@, "tls"@, "1"@) && tells(
            r@,
            "tls_fingerprint"@,
            fingerprint->Some_0@,
        ) && r@.len() == 13,
        fingerprint is None ==> r@.len() == 11,
{
    let l = r@;
    let p = pairs(l);
    assert(p.len() == l.len());
    assert forall|i: int| 0 <= i < l.len() implies (#[trigger] l[i]).0@ == p[i].0 && l[i].1@
        == p[i].1 by {}
    assert(l[0].0@ == "name"@ && l[1].0@ == "protocol"@ && l[2].0@ == "port"@ && l[3].0@ == "host"@
        && l[4].0@ == "server_id"@ && l[5].0@ == "version"@ && l[6].0@ == "platform"@ && l[7].0@
        == "cap_text"@ && l[8].0@ == "cap_image"@ && l[9].0@ == "cap_html"@ && l[10].0@
        == "cap_files"@);
    if fingerprint is Some {
        assert(l[11].0@ == "tls"@ && l[12].0@ == "tls_fingerprint"@);
    }
}

proof fn lemma_octets(a: int, b: int, c: int, d: int)
    requires
        0 <= a < 256,
        0 <= b < 256,
        0 <= c < 256,
        0 <= d < 256,
    ensures
        (a * 16_777_216 + b * 65_536 + c * 256 + d) / 16_777_216 == a,
        (a * 16_777_216 + b * 65_536 + c * 256 + d) / 65_536 % 256 == b,
        (a * 16_777_216 + b * 65_536 + c * 256 + d) / 256 % 256 == c,
        (a * 16_777_216 + b * 65_536 + c * 256 + d) % 256 == d,
{
    let n = a * 16_777_216 + b * 65_536 + c * 256 + d;
    vstd::arithmetic::div_mod::lemma_fundamental_div_mod_converse(
        n,
        16_777_216,
        a,
        b * 65_536 + c * 256 + d,
    );
    vstd::arithmetic::div_mod::lemma_fundamental_div_mod_converse(
        n,
        65_536,
        a * 256 + b,
        c * 256 + d,
    );
    vstd::arithmetic::div_mod::lemma_fundamental_div_mod_converse(a * 256 + b, 256, a, b);
    vstd::arithmetic::div_mod::lemma_fundamental_div_mod_converse(
        n,
        256,
        a * 65_536 + b * 256 + c,
        d,
    );
    vstd::arithmetic::div_mod::lemma_fundamental_div_mod_converse(
        a * 65_536 + b * 256 + c,
        256,
        a * 256 + b,
        c,
    );
}

/// An address is written by its four numbers with dots between them, and is announced unless
/// the first of them is 127 or it is of the longer sort; a service type ends in a dot.
pub proof fn law_addresses(
    a: u8,
    b: u8,
    c: u8,
    d: u8,
    n: u32,
    written: String,
    announced: Option<u32>,
    long: u128,
    other: Option<u32>,
    service: &str,
    full: String,
    bare: Seq<char>,
)
    requires
        n == a * 16_777_216 + b * 65_536 + c * 256 + d,
        call_ensures(dotted, (n,), written),
        call_ensures(announced_ip, (IpAddress::V4(n),), announced),
        call_ensures(announced_ip, (IpAddress::V6(long),), other),
        call_ensures(full_type, (service,), full),
    ensures
        written@ == text::decimal_of(a as nat) + "."@ + text::decimal_of(b as nat) + "."@
            + text::decimal_of(c as nat) + "."@ + text::decimal_of(d as nat),
        a == 127 ==> announced is None,
        a != 127 ==> announced == Some(n),
        other is None,
        service@ == bare + seq!['.'] ==> full@ == service@,
        service@ == bare && (bare.len() > 0 ==> bare.last() != '.') ==> full@ == bare + seq!['.'],
{
    lemma_octets(a as int, b as int, c as int, d as int);
    assert((bare + seq!['.']).last() == '.');
    assert(bare.push('.') =~= bare + seq!['.']);
}

/// A host's name loses `.local.` from its end, again and again, and nothing else.
pub proof fn law_hosts(host: &str, r: String, base: &str, q: String)
    requires
        call_ensures(host_instance, (host,), r),
        call_ensures(host_instance, (base,), q),
    ensures
        host@ == base@ + ".local."@ ==> r@ == q@,
        !(exists|x: Seq<char>| host@ == #[trigger] (x + ".local."@)) ==> r@ == host@,
{
    reveal_strlit(".local.");
    let e = ".local."@;
    if host@ == base@ + e {
        assert(host@.skip(host@.len() - e.len()) =~= e);
        assert(host@.take(host@.len() - e.len()) =~= base@);
    }
    if host@.len() >= e.len() && host@.skip(host@.len() - e.len()) == e {
        assert(host@ =~= host@.take(host@.len() - e.len()) + e);
    }
}

/// A search knows the last that was told of each server and forgets those that are gone; it
/// goes on until nothing has changed for its time. Anything else changes nothing.
pub proof fn law_searching(b: &mut Browse, event: BrowseEvent, now: u128, r: bool, k: Seq<char>)
    requires
        call_ensures(Browse::take, (b, event, now), r),
    ensures
        event is Resolved ==> {
            let s = event->Resolved_0;
            &&& final(b)@.seen.contains_key(s.fullname@) && final(b)@.seen[s.fullname@] == s@
            &&& final(b)@.last_change == now
            &&& k != s.fullname@ ==> (final(b)@.seen.contains_key(k) <==> old(b)@.seen.contains_key(
                k,
            )) && (old(b)@.seen.contains_key(k) ==> final(b)@.seen[k] == old(b)@.seen[k])
        },
        event is Removed ==> {
            &&& !final(b)@.seen.contains_key(event->Removed_0@)
            &&& final(b)@.last_change == now
            &&& k != event->Removed_0@ ==> (final(b)@.seen.contains_key(k)
                <==> old(b)@.seen.contains_key(k)) && (old(b)@.seen.contains_key(k)
                ==> final(b)@.seen[k] == old(b)@.seen[k])
        },
        event is Other ==> final(b)@ == old(b)@,
        r <==> now - final(b)@.last_change < final(b)@.settle,
        final(b)@.deadline == old(b)@.deadline && final(b)@.settle == old(b)@.settle,
{
}

/// A search begins with nothing found and lasts its time; in the end every server that is
/// known is given, once, by instance.
pub proof fn law_search_results(
    now: u128,
    timeout: u128,
    settle: u128,
    begun: Browse,
    b: &Browse,
    r: Vec<DiscoveredService>,
    then: u128,
    left: Option<u128>,
    k: Seq<char>,
    i: int,
    j: int,
)
    requires
        call_ensures(Browse::new, (now, timeout, settle), begun),
        call_ensures(Browse::finish, (b,), r),
        call_ensures(Browse::remaining, (b, then), left),
        now + timeout <= u128::MAX,
    ensures
        !begun@.seen.contains_key(k) && begun@.deadline == now + timeout && begun@.last_change == now
            && begun@.settle == settle,
        left is Some <==> then < b@.deadline,
        left is Some ==> left->Some_0 == b@.deadline - then,
        b@.seen.contains_key(k) ==> services(r@).contains(b@.seen[k]),
        0 <= i < r@.len() ==> b@.seen.contains_key(r@[i].fullname@) && b@.seen[r@[i].fullname@]
            == r@[i]@,
        0 <= i < j < r@.len() ==> r@[i].fullname@ != r@[j].fullname@ && !text::precedes(
            r@[j].instance@,
            r@[i].instance@,
        ),
{
    let l = services(r@);
    if b@.seen.contains_key(k) {
        assert(exists|i: int| 0 <= i < l.len() && #[trigger] l[i] == b@.seen[k]);
    }
    if 0 <= i < r@.len() {
        assert(l[i] == r@[i]@);
        assert(b@.seen.contains_key(own_name()(l[i])));
    }
    if 0 <= i < j < r@.len() {
        assert(l[i] == r@[i]@ && l[j] == r@[j]@);
        assert(own_name()(l[i]) != own_name()(l[j]));
    }
}

/// A server's sockets are its addresses in order, each with its port.
pub proof fn law_sockets(s: &DiscoveredService, r: Vec<SocketAddress>, i: int)
    requires
        call_ensures(DiscoveredService::socket_addrs, (s,), r),
    ensures
        r@.len() == s.addrs@.len(),
        0 <= i < r@.len() ==> r@[i].ip == s.addrs@[i] && r@[i].port == s.port,
{
}

/// A server is described by its instance, its addresses, its port, and then each of its
/// properties, the smaller keys first.
pub proof fn law_descriptions(s: &DiscoveredService, addrs: &Vec<String>, r: Vec<String>, i: int)
    requires
        call_ensures(service_lines, (s, addrs), r),
    ensures
        r@.len() == 3 + s.properties@.len(),
        r@[0]@ == "  "@ + s.instance@,
        addrs@.len() == 1 ==> r@[1]@ == "    Endereços: "@ + addrs@[0]@,
        addrs@.len() == 2 ==> r@[1]@ == "    Endereços: "@ + (addrs@[0]@ + ", "@ + addrs@[1]@),
        r@[2]@ == "    Porta: "@ + text::decimal_of(s.port as nat),
        0 <= i < s.properties@.len() ==> text::views(r@).contains(
            "    "@ + s.properties@[i].0@ + ": "@ + s.properties@[i].1@,
        ),
{
    let v = text::views(r@);
    let source = s.properties@;
    let l = choose|l: Seq<(String, String)>|
        #[trigger] sort::is_sorted_from(source, l, pair_before()) && v == seq![
            "  "@ + s.instance@,
            "    Endereços: "@ + joined(text::views(addrs@)),
            "    Porta: "@ + text::decimal_of(s.port as nat),
        ] + property_lines(l);
    assert(sort::is_sorted_from(source, l, pair_before()));
    assert(v.len() == r@.len());
    assert(l.len() == source.len());
    assert(property_lines(l).len() == l.len());
    assert(v[0] == r@[0]@ && v[1] == r@[1]@ && v[2] == r@[2]@);
    let a = text::views(addrs@);
    if addrs@.len() == 1 {
        assert(a[0] == addrs@[0]@);
    }
    if addrs@.len() == 2 {
        reveal_with_fuel(joined, 3);
        assert(a.drop_last().len() == 1);
        assert(a.drop_last()[0] == addrs@[0]@);
        assert(a.last() == addrs@[1]@);
        assert(joined(a) == addrs@[0]@ + ", "@ + addrs@[1]@);
    }
    if 0 <= i < source.len() {
        let p = choose|p: Seq<usize>|
            #![trigger sort::is_arrangement(p, source.len())]
            {
                &&& sort::is_arrangement(p, source.len())
                &&& sort::is_stable(p, |i: int, j: int| pair_before()(source[i], source[j]))
                &&& l.len() == source.len()
                &&& forall|i: int| 0 <= i < l.len() ==> #[trigger] l[i] == source[p[i] as int]
            };
        sort::lemma_arrangement_covers(p, source.len(), i);
        let k = choose|k: int| 0 <= k < source.len() && #[trigger] p[k] == i;
        assert(l[k] == source[i]);
        assert(v[3 + k] == property_lines(l)[k]);
    }
}

} // verus!
