//! Request authentication: the platform's timestamped HMAC-SHA256 scheme.
//!
//! The signature of a request is `"v0=" + hex(HMAC-SHA256(secret, "v0:" +
//! timestamp + ":" + body))`; an inbound request is authentic exactly when
//! the supplied signature header equals that string.

use hmac::{Hmac, KeyInit, Mac};
use sha2::Sha256;
use vstd::prelude::*;
use vstd::string::{StrSliceExecFns, StringExecFns};
use vstd::utf8::encode_utf8;
use crate::error::SlackError;

verus! {

/// The HMAC-SHA256 tag of `msg` under `key`. The tag is a pure function of
/// key and message; its value is stated nowhere and computed only by the
/// outside implementation.
pub uninterp spec fn hmac_sha256_of(key: Seq<u8>, msg: Seq<u8>) -> Seq<u8>;

/// Computes an HMAC-SHA256 tag.
///
/// Relies on `hmac::Hmac<sha2::Sha256>` (`new_from_slice`, `update`,
/// `finalize`): the tag depends on key and message alone and is 32 bytes
/// long; HMAC accepts keys of any length.
#[verifier::external_body]
fn hmac_sha256(key: &[u8], msg: &[u8]) -> (r: Vec<u8>)
    ensures
        r@ == hmac_sha256_of(key@, msg@),
        r@.len() == 32,
{
    let mut mac = <Hmac<Sha256> as KeyInit>::new_from_slice(key)
        .expect("HMAC accepts keys of any length");
    mac.update(msg);
    mac.finalize().into_bytes().to_vec()
}

/// Lowercase hex digit character for a value below 16.
pub open spec fn hex_lower(n: u8) -> char {
    if n < 10 {
        ((48 + n) as u8) as char
    } else {
        ((87 + n) as u8) as char
    }
}

/// Lowercase hex expansion of a byte sequence, two digits per byte.
pub open spec fn hex_of(s: Seq<u8>) -> Seq<char>
    decreases s.len(),
{
    if s.len() == 0 {
        Seq::empty()
    } else {
        seq![hex_lower(s[0] / 16), hex_lower(s[0] % 16)] + hex_of(s.subrange(1, s.len() as int))
    }
}

/// Hex-encodes a byte sequence.
///
/// Relies on `hex::encode`: each input byte becomes two lowercase hex digit
/// characters, high nibble first.
#[verifier::external_body]
fn hex_encode(b: &[u8]) -> (r: String)
    ensures
        r@ == hex_of(b@),
{
    hex::encode(b)
}

/// The signed base string `"v0:" + timestamp + ":" + body`, as UTF-8 bytes.
pub open spec fn base_string(ts: Seq<char>, body: Seq<char>) -> Seq<u8> {
    encode_utf8("v0:"@) + encode_utf8(ts) + encode_utf8(":"@) + encode_utf8(body)
}

/// The signature the platform attaches to a request with this timestamp and
/// body under this signing secret.
pub open spec fn signature_string(secret: Seq<char>, ts: Seq<char>, body: Seq<char>) -> Seq<char> {
    "v0="@ + hex_of(hmac_sha256_of(encode_utf8(secret), base_string(ts, body)))
}

/// A supplied signature is acceptable exactly when it equals the computed one.
pub open spec fn signature_ok(
    secret: Seq<char>,
    ts: Seq<char>,
    body: Seq<char>,
    sig: Seq<char>,
) -> bool {
    sig == signature_string(secret, ts, body)
}

/// Computes the signature for `body` at `timestamp` under `secret`.
pub fn sign_request(secret: &str, timestamp: &str, body: &str) -> (r: String)
    ensures
        r@ == signature_string(secret@, timestamp@, body@),
{
    let mut msg: Vec<u8> = "v0:".as_bytes_vec();
    let ts_bytes: Vec<u8> = timestamp.as_bytes_vec();
    let colon: Vec<u8> = ":".as_bytes_vec();
    let body_bytes: Vec<u8> = body.as_bytes_vec();
    msg.extend_from_slice(ts_bytes.as_slice());
    msg.extend_from_slice(colon.as_slice());
    msg.extend_from_slice(body_bytes.as_slice());
    proof {
        assert(msg@ =~= base_string(timestamp@, body@));
    }
    let key: Vec<u8> = secret.as_bytes_vec();
    let tag = hmac_sha256(key.as_slice(), msg.as_slice());
    let digits = hex_encode(tag.as_slice());
    let r = String::from_str("v0=").concat(digits.as_str());
    proof {
        assert(r@ =~= signature_string(secret@, timestamp@, body@));
    }
    r
}

/// Checks the supplied signature header against the computed signature.
pub fn verify_signature(secret: &str, timestamp: &str, body: &str, signature: &str) -> (r:
    core::result::Result<(), SlackError>)
    ensures
        r is Ok <==> signature_ok(secret@, timestamp@, body@, signature@),
        r is Err ==> r matches Err(SlackError::InvalidSignature),
{
    let expected = sign_request(secret, timestamp, body);
    let supplied = String::from_str(signature);
    if supplied == expected {
        Ok(())
    } else {
        Err(SlackError::InvalidSignature)
    }
}

/// The signature law: a signature computed from a body, a timestamp and a
/// secret is accepted for exactly that body, timestamp and secret, and any
/// supplied signature that differs from the computed one is rejected.
pub proof fn signature_round_trip(secret: Seq<char>, ts: Seq<char>, body: Seq<char>)
    ensures
        signature_ok(secret, ts, body, signature_string(secret, ts, body)),
        forall|sig: Seq<char>|
            sig != signature_string(secret, ts, body) ==> !signature_ok(secret, ts, body, sig),
{
}

/// The supplied timestamp is a decimal number of Unix seconds within the
/// tolerance window around `now`.
pub open spec fn timestamp_fresh(ts: Seq<char>, now: i64, tolerance: i64) -> bool {
    match crate::classify::parse_u64_digits(ts) {
        Some(t) => -tolerance <= now - t <= tolerance,
        None => false,
    }
}

/// Checks the signature and, against replay of old but correctly signed
/// requests, the timestamp's freshness: the request passes only when its
/// signature matches and its timestamp lies within `tolerance` seconds of
/// `now` (five minutes is a common choice).
pub fn verify_signature_fresh(
    secret: &str,
    timestamp: &str,
    body: &str,
    signature: &str,
    now: i64,
    tolerance: i64,
) -> (r: core::result::Result<(), SlackError>)
    requires
        tolerance >= 0,
    ensures
        r is Ok <==> signature_ok(secret@, timestamp@, body@, signature@) && timestamp_fresh(
            timestamp@,
            now,
            tolerance,
        ),
        r is Err ==> r matches Err(SlackError::InvalidSignature),
{
    let ts_chars = crate::strconv::to_chars(timestamp);
    let fresh = match crate::classify::parse_u64_chars(&ts_chars) {
        Some(t) => {
            let diff: i128 = (now as i128) - (t as i128);
            -(tolerance as i128) <= diff && diff <= (tolerance as i128)
        },
        None => false,
    };
    if !fresh {
        return Err(SlackError::InvalidSignature);
    }
    verify_signature(secret, timestamp, body, signature)
}

} // verus!
