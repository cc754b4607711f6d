//! SHA-256 digests, of a whole byte string or of one that arrives in pieces.

use sha2::Digest;
use vstd::prelude::*;

use crate::encoding;

verus! {

/// A running SHA-256 computation.
#[verifier::external_body]
pub struct Hasher {
    inner: sha2::Sha256,
}

/// The bytes that a running computation has taken in, in order.
pub uninterp spec fn absorbed(h: Hasher) -> Seq<u8>;

/// The SHA-256 digest of a byte string.
pub uninterp spec fn sha256(data: Seq<u8>) -> Seq<u8>;

/// `sha2::Sha256::new`: a computation that has taken in nothing.
#[verifier::external_body]
pub(crate) fn start() -> (r: Hasher)
    ensures
        absorbed(r) == Seq::<u8>::empty(),
{
    Hasher { inner: sha2::Sha256::new() }
}

/// `sha2::Sha256::update`: takes `data` in after what came before.
#[verifier::external_body]
pub(crate) fn update(h: &mut Hasher, data: &[u8])
    ensures
        absorbed(*final(h)) == absorbed(*old(h)) + data@,
{
    h.inner.update(data);
}

/// `sha2::Sha256::finalize`: the 32 bytes of the digest of everything taken in, a
/// function of those bytes alone.
#[verifier::external_body]
pub(crate) fn finish(h: Hasher) -> (r: [u8; 32])
    ensures
        r@ == sha256(absorbed(h)),
{
    h.inner.finalize().into()
}

/// `Clone::clone` of `sha2::Sha256`: a second computation that has taken in the same.
#[verifier::external_body]
pub(crate) fn fork(h: &Hasher) -> (r: Hasher)
    ensures
        absorbed(r) == absorbed(*h),
{
    Hasher { inner: h.inner.clone() }
}

/// The digest of `data` in hexadecimal.
pub open spec fn hash_of(data: Seq<u8>) -> Seq<char> {
    encoding::hex_of(sha256(data))
}

/// The SHA-256 digest of `data`.
pub fn digest_bytes(data: &[u8]) -> (r: [u8; 32])
    ensures
        r@ == sha256(data@),
{
    let mut h = start();
    update(&mut h, data);
    assert(absorbed(h) =~= data@);
    finish(h)
}

/// The SHA-256 digest of `data` in hexadecimal: 64 small digits.
pub fn hash_bytes(data: &[u8]) -> (r: String)
    ensures
        r@ == hash_of(data@),
        r@.len() == 64,
{
    let d = digest_bytes(data);
    encoding::hex_encode(d.as_slice())
}

/// The digest of a whole is the digest of its pieces taken in one after the other, and in
/// words it is two small hexadecimal digits for each of its 32 bytes.
pub proof fn law_digests(data: &[u8], r: [u8; 32], words: String)
    requires
        call_ensures(digest_bytes, (data,), r),
        call_ensures(hash_bytes, (data,), words),
    ensures
        r@ == sha256(data@),
        words@.len() == 64,
        encoding::unhex(words@) == Some(r@),
{
    encoding::law_hex_round_trip(r@);
}

} // verus!
