//! How a request is signed: a keyed hash over the time of signing and the body.

use crate::decimal::{
    decimal, decimal_string, is_digit, law_decimal_injective, lemma_decimal_digits,
};
use hmac::{Hmac, KeyInit, Mac};
use sha2::Sha256;
use vstd::prelude::*;
use vstd::utf8::{encode_utf8, is_ascii_chars_encode_utf8};

verus! {

/// The header that carries the signature.
pub const SIGNATURE_HEADER: &'static str = "x-maillaser-signature-256";

/// The header that carries the time of signing, in seconds since the Unix epoch.
pub const TIMESTAMP_HEADER: &'static str = "x-maillaser-timestamp";

/// The HMAC-SHA256 code of `message` under `key`, as the `hmac` and `sha2` crates compute it.
pub uninterp spec fn hmac_sha256(key: Seq<u8>, message: Seq<u8>) -> Seq<u8>;

/// Computes a code with `hmac::Hmac<sha2::Sha256>`: `new_from_slice`, one `update` and `finalize`.
///
/// Trusted: keys of every length are accepted, and the code is a function of key and message, 32
/// bytes long.
#[verifier::external_body]
fn authenticate(key: &[u8], message: &[u8]) -> (r: Vec<u8>)
    ensures
        r@ == hmac_sha256(key@, message@),
        r@.len() == 32,
{
    let mut mac = Hmac::<Sha256>::new_from_slice(key).expect("HMAC accepts keys of any length");
    mac.update(message);
    mac.finalize().into_bytes().to_vec()
}

/// The lower-case hexadecimal digit for a number below sixteen.
pub open spec fn hex_digit(n: int) -> char {
    if n < 10 {
        (n + '0' as u32) as u32 as char
    } else {
        (n - 10 + 'a' as u32) as u32 as char
    }
}

/// Every byte as two lower-case hexadecimal digits, the high one first.
pub open spec fn hex(bytes: Seq<u8>) -> Seq<char> {
    Seq::new(
        2 * bytes.len(),
        |i: int|
            hex_digit(
                if i % 2 == 0 {
                    bytes[i / 2] as int / 16
                } else {
                    bytes[i / 2] as int % 16
                },
            ),
    )
}

/// Calls `hex::encode`.
///
/// Trusted: every byte becomes two lower-case hexadecimal digits, in order.
#[verifier::external_body]
fn hex_encode(bytes: &[u8]) -> (r: String)
    ensures
        r@ == hex(bytes@),
{
    hex::encode(bytes)
}

/// What is signed: the time in decimal, a dot, the body.
pub open spec fn signed_message(timestamp: u64, body: Seq<u8>) -> Seq<u8> {
    encode_utf8(decimal(timestamp as nat)) + seq!['.' as u8] + body
}

/// The signature of a body at a time.
pub open spec fn signature(secret: Seq<u8>, timestamp: u64, body: Seq<u8>) -> Seq<char> {
    hex(hmac_sha256(secret, signed_message(timestamp, body)))
}

/// Computes the hex-encoded HMAC-SHA256 of `<timestamp>.<body>`.
///
/// Receivers reject stale timestamps to prevent replay, and because the timestamp is part of what
/// is signed, an old signature cannot be forwarded with a fresh timestamp.
pub fn compute_signature(secret: &[u8], timestamp: u64, body: &[u8]) -> (r: String)
    ensures
        r@ == signature(secret@, timestamp, body@),
        r@.len() == 64,
{
    let time = decimal_string(timestamp);
    let mut message: Vec<u8> = time.as_str().as_bytes_vec();
    message.push('.' as u8);
    message.extend_from_slice(body);
    assert(message@ == signed_message(timestamp, body@));
    let code = authenticate(secret, message.as_slice());
    hex_encode(code.as_slice())
}

/// The time in decimal, as bytes: digits only, so no dot.
proof fn lemma_time_bytes(timestamp: u64)
    ensures
        encode_utf8(decimal(timestamp as nat)).len() == decimal(timestamp as nat).len(),
        forall|i: int|
            #![trigger encode_utf8(decimal(timestamp as nat))[i]]
            0 <= i < decimal(timestamp as nat).len() ==> {
                &&& encode_utf8(decimal(timestamp as nat))[i] == decimal(timestamp as nat)[i] as u8
                &&& encode_utf8(decimal(timestamp as nat))[i] != '.' as u8
                &&& is_digit(decimal(timestamp as nat)[i])
            },
{
    lemma_decimal_digits(timestamp as nat);
    is_ascii_chars_encode_utf8(decimal(timestamp as nat));
}

/// What is signed tells time and body apart: where the times or the bodies differ, so does what is
/// signed.
pub proof fn law_signed_message_injective(t1: u64, body1: Seq<u8>, t2: u64, body2: Seq<u8>)
    requires
        signed_message(t1, body1) == signed_message(t2, body2),
    ensures
        t1 == t2,
        body1 == body2,
{
    let m1 = signed_message(t1, body1);
    let m2 = signed_message(t2, body2);
    let s1 = decimal(t1 as nat);
    let s2 = decimal(t2 as nat);
    let d1 = encode_utf8(s1);
    let d2 = encode_utf8(s2);
    lemma_time_bytes(t1);
    lemma_time_bytes(t2);
    assert(m1[d1.len() as int] == '.' as u8);
    assert(m2[d2.len() as int] == '.' as u8);
    if d1.len() < d2.len() {
        assert(m2[d1.len() as int] == d2[d1.len() as int]);
    }
    if d2.len() < d1.len() {
        assert(m1[d2.len() as int] == d1[d2.len() as int]);
    }
    assert forall|i: int| 0 <= i < s1.len() implies s1[i] == s2[i] by {
        assert(m1[i] == d1[i]);
        assert(m2[i] == d2[i]);
        assert(is_digit(s1[i]) && is_digit(s2[i]));
    }
    assert(s1 =~= s2);
    law_decimal_injective(t1 as nat, t2 as nat);
    assert(body1 =~= m1.skip(d1.len() as int + 1));
    assert(body2 =~= m2.skip(d2.len() as int + 1));
}

/// Different bytes have different hexadecimal forms, so two signatures are equal only if the codes
/// are.
pub proof fn law_hex_injective(a: Seq<u8>, b: Seq<u8>)
    requires
        hex(a) == hex(b),
    ensures
        a == b,
{
    assert(hex(a).len() == 2 * a.len());
    assert(hex(b).len() == 2 * b.len());
    assert forall|i: int| 0 <= i < a.len() implies a[i] == b[i] by {
        let (high, low) = (2 * i, 2 * i + 1);
        assert(high % 2 == 0 && high / 2 == i);
        assert(low % 2 == 1 && low / 2 == i);
        assert(hex(a)[high] == hex_digit(a[i] as int / 16));
        assert(hex(b)[high] == hex_digit(b[i] as int / 16));
        assert(hex(a)[low] == hex_digit(a[i] as int % 16));
        assert(hex(b)[low] == hex_digit(b[i] as int % 16));
    }
    assert(a =~= b);
}

/// A signature is written in lower-case hexadecimal digits only.
pub proof fn law_hex_digits(bytes: Seq<u8>, i: int)
    requires
        0 <= i < hex(bytes).len(),
    ensures
        '0' <= hex(bytes)[i] <= '9' || 'a' <= hex(bytes)[i] <= 'f',
{
}

} // verus!
