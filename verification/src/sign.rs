//! Authenticated-request signing: the canonical string
//! `timestamp ++ api_key ++ recv_window ++ params` is HMAC-SHA256'd
//! under the API secret and hex-encoded. The signature is a function
//! of its five inputs alone, so equal inputs always reproduce it.

use vstd::prelude::*;
use vstd::string::StringExecFns;
use hmac::Mac;
use crate::strutil::{dec_of, u64_to_dec};

verus! {

/// The receive window the exchange is told, in milliseconds.
pub const RECV_WINDOW_MS: u64 = 5000;

/// The 32-byte HMAC-SHA256 tag of `msg` under `key`, both as UTF-8.
pub uninterp spec fn hmac_sha256_of(key: Seq<char>, msg: Seq<char>) -> Seq<u8>;

/// Relies on the hmac crate's `Hmac<Sha256>`: the tag is a function of
/// key and message alone and is 32 bytes long; `new_from_slice`
/// accepts keys of any length for HMAC.
#[verifier::external_body]
fn hmac_sha256(key: &str, msg: &str) -> (r: Vec<u8>)
    ensures
        r@ == hmac_sha256_of(key@, msg@),
        r@.len() == 32,
{
    let mut mac = <hmac::Hmac<sha2::Sha256> as Mac>::new_from_slice(key.as_bytes())
        .expect("HMAC accepts keys of any length");
    mac.update(msg.as_bytes());
    mac.finalize().into_bytes().to_vec()
}

/// The lowercase hexadecimal digit for a value below sixteen.
pub open spec fn hex_digit(d: int) -> char {
    seq!['0', '1', '2', '3', '4', '5', '6', '7', '8', '9', 'a', 'b', 'c', 'd', 'e', 'f'][d]
}

/// The lowercase hex encoding of a byte string: two digits per byte,
/// high nibble first.
pub open spec fn hex_of(b: Seq<u8>) -> Seq<char>
    decreases b.len(),
{
    if b.len() == 0 {
        Seq::empty()
    } else {
        hex_of(b.drop_last()) + seq![
            hex_digit(b.last() as int / 16),
            hex_digit(b.last() as int % 16),
        ]
    }
}

/// The hex encoding of a byte string is twice as long.
pub proof fn lemma_hex_of_len(b: Seq<u8>)
    ensures
        hex_of(b).len() == 2 * b.len(),
    decreases b.len(),
{
    if b.len() > 0 {
        lemma_hex_of_len(b.drop_last());
    }
}

/// Relies on hex::encode: each byte becomes two digits from the table
/// `0123456789abcdef`, high nibble first.
#[verifier::external_body]
fn hex_encode(b: &Vec<u8>) -> (r: String)
    ensures
        r@ == hex_of(b@),
{
    hex::encode(b.as_slice())
}

/// The canonical string that gets signed: the decimal timestamp, the
/// API key, the decimal receive window, then the query parameters.
pub open spec fn canonical_of(
    timestamp: u64,
    api_key: Seq<char>,
    recv_window: u64,
    params: Seq<char>,
) -> Seq<char> {
    dec_of(timestamp as nat) + api_key + dec_of(recv_window as nat) + params
}

/// Builds the canonical string for signing.
pub fn build_sign_payload(timestamp: u64, api_key: &str, recv_window: u64, params: &str) -> (r:
    String)
    ensures
        r@ == canonical_of(timestamp, api_key@, recv_window, params@),
{
    let mut s = u64_to_dec(timestamp);
    s.append(api_key);
    let w = u64_to_dec(recv_window);
    s.append(w.as_str());
    s.append(params);
    s
}

/// Signs a request: the hex-encoded HMAC-SHA256 tag of the canonical
/// string under the API secret. Equal inputs give equal signatures.
pub fn sign(
    api_secret: &str,
    api_key: &str,
    timestamp: u64,
    recv_window: u64,
    params: &str,
) -> (r: String)
    ensures
        r@ == hex_of(
            hmac_sha256_of(
                api_secret@,
                canonical_of(timestamp, api_key@, recv_window, params@),
            ),
        ),
        r@.len() == 64,
{
    let payload = build_sign_payload(timestamp, api_key, recv_window, params);
    let tag = hmac_sha256(api_secret, payload.as_str());
    proof {
        lemma_hex_of_len(tag@);
    }
    hex_encode(&tag)
}

/// The authentication header set of a private REST request.
pub struct AuthHeaders {
    /// Value of the API-key header.
    pub api_key: String,
    /// Value of the signature header.
    pub signature: String,
    /// Value of the timestamp header: the decimal milliseconds.
    pub timestamp: String,
    /// Value of the receive-window header, decimal milliseconds.
    pub recv_window: String,
}

/// Builds the header set for a private request signed at `timestamp`
/// with the fixed receive window.
pub fn build_auth_headers(api_key: &str, api_secret: &str, timestamp: u64, params: &str) -> (r:
    AuthHeaders)
    ensures
        r.api_key@ == api_key@,
        r.signature@ == hex_of(
            hmac_sha256_of(
                api_secret@,
                canonical_of(timestamp, api_key@, RECV_WINDOW_MS, params@),
            ),
        ),
        r.signature@.len() == 64,
        r.timestamp@ == dec_of(timestamp as nat),
        r.recv_window@ == dec_of(RECV_WINDOW_MS as nat),
{
    AuthHeaders {
        api_key: api_key.to_owned(),
        signature: sign(api_secret, api_key, timestamp, RECV_WINDOW_MS, params),
        timestamp: u64_to_dec(timestamp),
        recv_window: u64_to_dec(RECV_WINDOW_MS),
    }
}

} // verus!
