//! Bytes written as text: hexadecimal, base64 and UTF-8.

use base64::Engine;
use vstd::prelude::*;
use vstd::utf8::{decode_utf8, encode_utf8, valid_utf8};

verus! {

#[verifier::external_type_specification]
#[verifier::external_body]
pub struct ExFromHexError(hex::FromHexError);

#[verifier::external_type_specification]
#[verifier::external_body]
pub struct ExDecodeError(base64::DecodeError);

/// The small hexadecimal digit that stands for `n`.
pub open spec fn hex_digit(n: int) -> char {
    if n < 10 {
        (('0' as u32 + n) as u8) as char
    } else {
        (('a' as u32 + n - 10) as u8) as char
    }
}

/// Each byte as two small hexadecimal digits, the high half first.
pub open spec fn hex_of(b: Seq<u8>) -> Seq<char> {
    Seq::new(
        2 * b.len(),
        |i: int| hex_digit(if i % 2 == 0 { b[i / 2] as int / 16 } else { b[i / 2] as int % 16 }),
    )
}

/// The value of a hexadecimal digit of either case.
pub open spec fn hex_value(c: char) -> Option<int> {
    if '0' <= c <= '9' {
        Some(c as u32 - '0' as u32)
    } else if 'a' <= c <= 'f' {
        Some(c as u32 - 'a' as u32 + 10)
    } else if 'A' <= c <= 'F' {
        Some(c as u32 - 'A' as u32 + 10)
    } else {
        None
    }
}

/// The bytes that pairs of hexadecimal digits stand for.
pub open spec fn unhex(s: Seq<char>) -> Option<Seq<u8>> {
    if s.len() % 2 == 0 && forall|i: int| 0 <= i < s.len() ==> hex_value(#[trigger] s[i]) is Some {
        Some(
            Seq::new(
                s.len() / 2,
                |i: int| (hex_value(s[2 * i]).unwrap() * 16 + hex_value(s[2 * i + 1]).unwrap()) as u8,
            ),
        )
    } else {
        None
    }
}

/// `hex::encode`: each byte as two small hexadecimal digits, the high half first.
#[verifier::external_body]
pub(crate) fn hex_encode(data: &[u8]) -> (r: String)
    requires
        2 * data@.len() <= isize::MAX,
    ensures
        r@ == hex_of(data@),
{
    hex::encode(data)
}

/// `hex::decode`: succeeds exactly on an even number of hexadecimal digits of either
/// case, and gives the byte that each pair stands for.
#[verifier::external_body]
pub(crate) fn hex_decode(s: &str) -> (r: Result<Vec<u8>, hex::FromHexError>)
    ensures
        r is Ok == unhex(s@) is Some,
        r matches Ok(b) ==> unhex(s@) == Some(b@),
{
    hex::decode(s)
}

/// Reading back what was written in hexadecimal gives the same bytes.
pub proof fn law_hex_round_trip(b: Seq<u8>)
    ensures
        unhex(hex_of(b)) == Some(b),
{
    let s = hex_of(b);
    assert forall|i: int| 0 <= i < s.len() implies hex_value(#[trigger] s[i]) == Some(
        if i % 2 == 0 { b[i / 2] as int / 16 } else { b[i / 2] as int % 16 },
    ) by {}
    assert forall|i: int| 0 <= i < b.len() implies unhex(s).unwrap()[i] == b[i] by {
        assert(hex_value(s[2 * i]) == Some(b[i] as int / 16));
        assert(hex_value(s[2 * i + 1]) == Some(b[i] as int % 16));
    }
    assert(unhex(s).unwrap() =~= b);
}

#[verifier::external_type_specification]
#[verifier::external_body]
pub struct ExUtf8Error(std::str::Utf8Error);

/// `std::str::from_utf8`: succeeds exactly on valid UTF-8, and gives the text that the
/// bytes encode.
#[verifier::external_body]
pub(crate) fn utf8_text(b: &[u8]) -> (r: Result<&str, std::str::Utf8Error>)
    ensures
        r is Ok == valid_utf8(b@),
        r matches Ok(s) ==> s@ == decode_utf8(b@),
{
    std::str::from_utf8(b)
}

/// What bytes that are not valid UTF-8 read as, the invalid parts replaced.
pub uninterp spec fn replaced_text(b: Seq<u8>) -> Seq<char>;

/// The text that bytes encode in UTF-8, what is not valid replaced.
pub open spec fn lossy_text(b: Seq<u8>) -> Seq<char> {
    if valid_utf8(b) {
        decode_utf8(b)
    } else {
        replaced_text(b)
    }
}

/// `String::from_utf8_lossy`: valid UTF-8 is decoded as it is; what other bytes read as
/// is a function of them, and not spelled out.
#[verifier::external_body]
pub(crate) fn utf8_lossy(b: &[u8]) -> (r: String)
    ensures
        valid_utf8(b@) ==> r@ == decode_utf8(b@),
        !valid_utf8(b@) ==> r@ == replaced_text(b@),
{
    String::from_utf8_lossy(b).into_owned()
}

/// The bytes of `s` in UTF-8.
pub fn text_bytes(s: &str) -> (r: Vec<u8>)
    ensures
        r@ == encode_utf8(s@),
{
    vstd::slice::slice_to_vec(s.as_bytes())
}

/// The sign of the standard base64 alphabet that stands for `n`.
pub open spec fn base64_sign(n: int) -> char {
    if n < 26 {
        (('A' as u32 + n) as u8) as char
    } else if n < 52 {
        (('a' as u32 + n - 26) as u8) as char
    } else if n < 62 {
        (('0' as u32 + n - 52) as u8) as char
    } else if n == 62 {
        '+'
    } else {
        '/'
    }
}

/// Three bytes as four signs, the last group padded with `=`.
pub open spec fn base64_of(b: Seq<u8>) -> Seq<char>
    decreases b.len(),
{
    if b.len() == 0 {
        Seq::empty()
    } else {
        let x = b[0] as int;
        let y = if b.len() > 1 { b[1] as int } else { 0 };
        let z = if b.len() > 2 { b[2] as int } else { 0 };
        seq![
            base64_sign(x / 4),
            base64_sign(x % 4 * 16 + y / 16),
            if b.len() > 1 { base64_sign(y % 16 * 4 + z / 64) } else { '=' },
            if b.len() > 2 { base64_sign(z % 64) } else { '=' },
        ] + base64_of(if b.len() > 3 { b.skip(3) } else { Seq::empty() })
    }
}

/// Whether the base64 text of `n` bytes fits in memory.
pub open spec fn base64_fits(n: nat) -> bool {
    (n + 2) / 3 * 4 <= isize::MAX
}

/// `Engine::encode` of base64's `STANDARD` engine: the standard alphabet with padding.
#[verifier::external_body]
pub(crate) fn base64_encode(data: &[u8]) -> (r: String)
    requires
        base64_fits(data@.len()),
    ensures
        r@ == base64_of(data@),
{
    base64::engine::general_purpose::STANDARD.encode(data)
}

/// `Engine::decode` of base64's `STANDARD` engine, which demands canonical padding and
/// refuses stray bits: it succeeds exactly on what the engine's `encode` writes, and
/// gives back the bytes that were written.
#[verifier::external_body]
pub(crate) fn base64_decode(s: &str) -> (r: Result<Vec<u8>, base64::DecodeError>)
    ensures
        r matches Ok(b) ==> base64_of(b@) == s@,
        r is Err ==> forall|b: Seq<u8>| #[trigger] base64_of(b) != s@,
{
    base64::engine::general_purpose::STANDARD.decode(s)
}

/// The bytes that a base64 text stands for.
pub open spec fn unbase64(s: Seq<char>) -> Option<Seq<u8>> {
    if exists|b: Seq<u8>| #[trigger] base64_of(b) == s {
        Some(choose|b: Seq<u8>| #[trigger] base64_of(b) == s)
    } else {
        None
    }
}

/// The bytes that a base64 text stands for.
pub fn decode_base64(s: &str) -> (r: Option<Vec<u8>>)
    ensures
        r is Some == unbase64(s@) is Some,
        r matches Some(b) ==> unbase64(s@) == Some(b@),
{
    match base64_decode(s) {
        Ok(b) => {
            proof {
                assert(base64_of(b@) == s@);
                law_base64_round_trip(b@);
            }
            Some(b)
        },
        Err(_) => None,
    }
}

/// Reading back what was written in base64 gives the same bytes.
pub proof fn law_base64_round_trip(b: Seq<u8>)
    ensures
        unbase64(base64_of(b)) == Some(b),
{
    let s = base64_of(b);
    assert(base64_of(b) == s);
    let c = choose|c: Seq<u8>| #[trigger] base64_of(c) == s;
    law_base64_injective(b, c);
}

proof fn lemma_sign_injective(m: int, n: int)
    requires
        0 <= m < 64,
        0 <= n < 64,
        base64_sign(m) == base64_sign(n),
    ensures
        m == n,
{
}

proof fn lemma_sign_not_pad(n: int)
    requires
        0 <= n < 64,
    ensures
        base64_sign(n) != '=',
{
}

pub proof fn lemma_base64_len(b: Seq<u8>)
    ensures
        base64_of(b).len() == (b.len() + 2) / 3 * 4,
    decreases b.len(),
{
    if b.len() > 3 {
        lemma_base64_len(b.skip(3));
    } else {
        assert(base64_of(Seq::<u8>::empty()).len() == 0);
    }
}

/// A base64 text is as long in bytes as in characters.
pub proof fn lemma_base64_ascii(b: Seq<u8>)
    ensures
        encode_utf8(base64_of(b)).len() == base64_of(b).len(),
{
    lemma_base64_signs(b);
    vstd::utf8::is_ascii_chars_encode_utf8(base64_of(b));
}

proof fn lemma_base64_signs(b: Seq<u8>)
    ensures
        vstd::utf8::is_ascii_chars(base64_of(b)),
    decreases b.len(),
{
    if b.len() > 0 {
        let rest = if b.len() > 3 { b.skip(3) } else { Seq::empty() };
        lemma_base64_signs(rest);
        let s = base64_of(b);
        assert(s.skip(4) =~= base64_of(rest));
        assert forall|i: int| 0 <= i < s.len() implies '\0' <= #[trigger] s[i] <= '\u{7f}' by {
            if i >= 4 {
                assert(s[i] == base64_of(rest)[i - 4]);
            }
        }
    }
}

/// Different bytes are written differently in base64.
pub proof fn law_base64_injective(a: Seq<u8>, b: Seq<u8>)
    requires
        base64_of(a) == base64_of(b),
    ensures
        a == b,
    decreases a.len(),
{
    lemma_base64_len(a);
    lemma_base64_len(b);
    if a.len() == 0 || b.len() == 0 {
        assert(a =~= b);
    } else {
        let s = base64_of(a);
        let t = base64_of(b);
        let (ax, bx) = (a[0] as int, b[0] as int);
        let ay = if a.len() > 1 { a[1] as int } else { 0 };
        let az = if a.len() > 2 { a[2] as int } else { 0 };
        let by = if b.len() > 1 { b[1] as int } else { 0 };
        let bz = if b.len() > 2 { b[2] as int } else { 0 };
        assert(s[0] == t[0] && s[1] == t[1] && s[2] == t[2] && s[3] == t[3]);
        lemma_sign_injective(ax / 4, bx / 4);
        lemma_sign_injective(ax % 4 * 16 + ay / 16, bx % 4 * 16 + by / 16);
        assert(ax == bx);
        lemma_sign_not_pad(ay % 16 * 4 + az / 64);
        lemma_sign_not_pad(by % 16 * 4 + bz / 64);
        lemma_sign_not_pad(az % 64);
        lemma_sign_not_pad(bz % 64);
        assert((a.len() > 1) == (b.len() > 1));
        assert((a.len() > 2) == (b.len() > 2));
        if a.len() > 1 {
            lemma_sign_injective(ay % 16 * 4 + az / 64, by % 16 * 4 + bz / 64);
            assert(ay == by);
        }
        if a.len() > 2 {
            lemma_sign_injective(az % 64, bz % 64);
            assert(az == bz);
        }
        if a.len() > 3 || b.len() > 3 {
            assert(a.len() > 3 && b.len() > 3);
            assert(s.skip(4) =~= base64_of(a.skip(3)));
            assert(t.skip(4) =~= base64_of(b.skip(3)));
            law_base64_injective(a.skip(3), b.skip(3));
            assert(a =~= a.take(3) + a.skip(3));
            assert(b =~= b.take(3) + b.skip(3));
            assert(a.take(3) =~= b.take(3));
        } else {
            assert(a =~= b);
        }
    }
}

/// Base64 is read back exactly where it was written, and gives the bytes that were written.
pub proof fn law_reading_base64(s: &str, r: Option<Vec<u8>>, b: Seq<u8>, text: &str, bytes: Vec<u8>)
    requires
        call_ensures(decode_base64, (s,), r),
        call_ensures(text_bytes, (text,), bytes),
    ensures
        s@ == base64_of(b) ==> r is Some && r->Some_0@ == b,
        r is Some ==> base64_of(r->Some_0@) == s@,
        bytes@ == encode_utf8(text@),
{
    if s@ == base64_of(b) {
        law_base64_round_trip(b);
    }
    if r is Some {
        assert(base64_of(unbase64(s@)->Some_0) == s@);
    }
}

} // verus!
