//! The server's certificate, known to clients by its SHA-256 digest.

use vstd::prelude::*;

use crate::hashing;
use crate::error::{Error, ErrorView};
use crate::text;

verus! {

/// The SHA-256 digest of a certificate, in hexadecimal.
pub fn fingerprint(cert_der: &[u8]) -> (r: String)
    ensures
        r@ == hashing::hash_of(cert_der@),
        r@.len() == 64,
{
    hashing::hash_bytes(cert_der)
}

/// Whether `c` is a hexadecimal digit of either case.
pub open spec fn is_hex(c: char) -> bool {
    crate::encoding::hex_value(c) is Some
}

/// The hexadecimal digits of `s`, in small letters; what stands between them is dropped.
pub open spec fn normalized(s: Seq<char>) -> Seq<char>
    decreases s.len(),
{
    if s.len() == 0 {
        s
    } else if is_hex(s.last()) {
        normalized(s.drop_last()).push(text::lower(s.last()))
    } else {
        normalized(s.drop_last())
    }
}

/// The hexadecimal digits of `value`, in small letters.
pub fn normalize_fingerprint(value: &str) -> (r: String)
    ensures
        r@ == normalized(value@),
{
    let c = text::to_chars(value);
    let mut r = String::new();
    let mut i: usize = 0;
    assert(r@ =~= normalized(c@.take(0)));
    while i < c.len()
        invariant
            i <= c@.len(),
            r@ == normalized(c@.take(i as int)),
        decreases c@.len() - i,
    {
        let ch = c[i];
        assert(c@.take(i + 1).drop_last() =~= c@.take(i as int));
        if ('0' <= ch && ch <= '9') || ('a' <= ch && ch <= 'f') || ('A' <= ch && ch <= 'F') {
            r.push(text::ascii_lower(ch));
        }
        i = i + 1;
    }
    assert(c@.take(i as int) =~= c@);
    r
}

/// Whether a new certificate and key are to be made: one of the two files is missing.
pub fn needs_generation(cert_exists: bool, key_exists: bool) -> (r: bool)
    ensures
        r == !(cert_exists && key_exists),
{
    !cert_exists || !key_exists
}

/// `rcgen::generate_simple_self_signed`, with the certificate (`der`) and the key
/// (`serialize_der`) of what it gives, or the text of its error. The key is random, so
/// nothing is said of the result.
#[verifier::external_body]
fn self_signed(names: Vec<String>) -> Result<(Vec<u8>, Vec<u8>), String> {
    match rcgen::generate_simple_self_signed(names) {
        Ok(made) => Ok((made.cert.der().to_vec(), made.key_pair.serialize_der())),
        Err(e) => Err(e.to_string()),
    }
}

/// A certificate and its key as they were made, or the error for why they were not.
pub fn generated(made: Result<(Vec<u8>, Vec<u8>), String>) -> (r: Result<(Vec<u8>, Vec<u8>), Error>)
    ensures
        match made {
            Ok(parts) => r == Ok::<(Vec<u8>, Vec<u8>), Error>(parts),
            Err(why) => r matches Err(e) && e@ == ErrorView::Config(
                "falha gerando certificado TLS: "@ + why@,
            ),
        },
{
    match made {
        Ok(parts) => Ok(parts),
        Err(why) => Err(Error::Config(text::join("falha gerando certificado TLS: ", why.as_str()))),
    }
}

/// The names that a new certificate is made for.
pub fn certificate_names() -> (r: Vec<String>)
    ensures
        text::views(r@) == seq!["localhost"@],
{
    let mut names: Vec<String> = Vec::new();
    names.push("localhost".to_owned());
    assert(text::views(names@) =~= seq!["localhost"@]);
    names
}

/// A new self-signed certificate for `certificate_names`, and its key.
pub fn generate() -> (r: Result<(Vec<u8>, Vec<u8>), Error>)
    ensures
        r matches Err(e) ==> exists|why: Seq<char>|
            e@ == ErrorView::Config(#[trigger] ("falha gerando certificado TLS: "@ + why)),
{
    generated(self_signed(certificate_names()))
}

/// A certificate and its key.
#[derive(Debug)]
pub struct Identity {
    pub fingerprint: String,
    pub cert_der: Vec<u8>,
    pub key_der: Vec<u8>,
}

/// What is wrong with a certificate and key, if anything: one is empty, or the
/// certificate is not the expected one.
pub open spec fn identity_flaw(
    cert: Seq<u8>,
    key: Seq<u8>,
    expected: Option<Seq<char>>,
) -> Option<Seq<char>> {
    if cert.len() == 0 || key.len() == 0 {
        Some("identidade TLS vazia"@)
    } else if expected is Some && normalized(expected->Some_0) != hashing::hash_of(cert) {
        Some("fingerprint TLS local não corresponde à configuração"@)
    } else {
        None
    }
}

impl Identity {
    /// The identity that a certificate and key make, where it is the one expected.
    pub fn from_parts(cert_der: Vec<u8>, key_der: Vec<u8>, expected: &Option<String>) -> (r: Result<
        Self,
        Error,
    >)
        ensures
            match r {
                Ok(i) => {
                    &&& identity_flaw(
                        cert_der@,
                        key_der@,
                        crate::protocol::opt_view(*expected),
                    ) is None
                    &&& i.fingerprint@ == hashing::hash_of(cert_der@)
                    &&& i.cert_der@ == cert_der@
                    &&& i.key_der@ == key_der@
                },
                Err(e) => {
                    let flaw = identity_flaw(
                        cert_der@,
                        key_der@,
                        crate::protocol::opt_view(*expected),
                    );
                    flaw is Some && e@ == ErrorView::Config(flaw->Some_0)
                },
            },
    {
        if cert_der.len() == 0 || key_der.len() == 0 {
            return Err(Error::Config("identidade TLS vazia".to_owned()));
        }
        let fingerprint = fingerprint(cert_der.as_slice());
        match expected {
            Some(e) => {
                let want = normalize_fingerprint(e.as_str());
                if !text::same(want.as_str(), fingerprint.as_str()) {
                    return Err(
                        Error::Config(
                            "fingerprint TLS local não corresponde à configuração".to_owned(),
                        ),
                    );
                }
            },
            None => {},
        }
        Ok(Identity { fingerprint, cert_der, key_der })
    }
}

/// Whether a server's certificate is the pinned one.
pub fn pin_matches(cert_der: &[u8], pin: &str) -> (r: bool)
    ensures
        r == (hashing::hash_of(cert_der@) == pin@),
{
    let f = fingerprint(cert_der);
    text::same(f.as_str(), pin)
}

proof fn lemma_normalized_joins(a: Seq<char>, b: Seq<char>)
    ensures
        normalized(a + b) == normalized(a) + normalized(b),
    decreases b.len(),
{
    if b.len() == 0 {
        assert(a + b =~= a);
        assert(normalized(a) + normalized(b) =~= normalized(a));
    } else {
        assert((a + b).drop_last() =~= a + b.drop_last());
        lemma_normalized_joins(a, b.drop_last());
        assert(normalized(a + b) =~= normalized(a) + normalized(b));
    }
}

/// A fingerprint is compared by its hexadecimal digits alone: a digit or small letter stays,
/// a capital is made small, anything else is dropped, and the parts are taken one by one.
pub proof fn law_fingerprints_compared(
    s: &str,
    r: String,
    a: &str,
    ra: String,
    b: &str,
    rb: String,
)
    requires
        call_ensures(normalize_fingerprint, (s,), r),
        call_ensures(normalize_fingerprint, (a,), ra),
        call_ensures(normalize_fingerprint, (b,), rb),
    ensures
        s@ == a@ + b@ ==> r@ == ra@ + rb@,
        s@.len() == 0 ==> r@.len() == 0,
        s@.len() == 1 && ('0' <= s@[0] <= '9' || 'a' <= s@[0] <= 'f') ==> r@ == s@,
        s@.len() == 1 && 'A' <= s@[0] <= 'F' ==> r@.len() == 1 && r@[0] as u32 == s@[0] as u32 + 32,
        s@.len() == 1 && !('0' <= s@[0] <= '9' || 'a' <= s@[0] <= 'f' || 'A' <= s@[0] <= 'F')
            ==> r@.len() == 0,
{
    lemma_normalized_joins(a@, b@);
    if s@.len() == 1 {
        let c = s@[0];
        assert(s@.drop_last() =~= Seq::<char>::empty());
        assert(normalized(Seq::<char>::empty()) =~= Seq::<char>::empty());
        assert(s@.last() == c);
        if '0' <= c <= '9' || 'a' <= c <= 'f' {
            assert(r@ =~= s@);
        }
    }
}

/// A certificate is known by the digest of its bytes, is pinned by that digest and no other,
/// and makes an identity with its key where neither is empty and the digest is the expected
/// one, if one is; both are then kept as they were.
pub proof fn law_identities(
    cert: Vec<u8>,
    key: Vec<u8>,
    expected: Option<String>,
    r: Result<Identity, Error>,
    der: &[u8],
    digest: String,
    pin: &str,
    pinned: bool,
    asked: &str,
    compared: String,
)
    requires
        call_ensures(Identity::from_parts, (cert, key, &expected), r),
        der@ == cert@,
        call_ensures(fingerprint, (der,), digest),
        call_ensures(pin_matches, (der, pin), pinned),
        expected is Some ==> asked@ == expected->Some_0@,
        call_ensures(normalize_fingerprint, (asked,), compared),
    ensures
        digest@ == crate::encoding::hex_of(hashing::sha256(cert@)),
        pinned <==> pin@ == digest@,
        r is Ok <==> cert@.len() > 0 && key@.len() > 0 && (expected is Some ==> compared@
            == digest@),
        r is Ok ==> r->Ok_0.fingerprint@ == digest@ && r->Ok_0.cert_der@ == cert@
            && r->Ok_0.key_der@ == key@,
        r is Err ==> r->Err_0 is Config,
{
    if r is Err {
        assert(r->Err_0@ is Config);
    }
}

/// A certificate is made where one of its two files is missing.
pub proof fn law_generation(cert: bool, key: bool, r: bool)
    requires
        call_ensures(needs_generation, (cert, key), r),
    ensures
        r <==> !cert || !key,
{
}

} // verus!
