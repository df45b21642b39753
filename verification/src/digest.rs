//! Content addressing: JCS canonicalization, SHA-256 and lower-case hex.

use sha2::Digest;
use vstd::prelude::*;

use crate::error::CoreError;

verus! {

/// What `serde_jcs::to_vec` makes of the JSON document in `json`, as parsed by
/// `serde_json`: its RFC 8785 canonical bytes, or `None` when the bytes are not
/// a JSON document.
pub uninterp spec fn jcs_canonical_form(json: Seq<u8>) -> Option<Seq<u8>>;

/// The SHA-256 digest of `data`.
pub uninterp spec fn sha256_of(data: Seq<u8>) -> Seq<u8>;

/// Parses `json` with `serde_json::from_slice` into a `serde_json::Value` and
/// canonicalizes that value with `serde_jcs::to_vec`. The contract claims that
/// the result is determined by the bytes alone; the text of a failure is left
/// unsaid.
#[verifier::external_body]
fn canonicalize_json(json: &[u8]) -> (r: Result<Vec<u8>, String>)
    ensures
        match jcs_canonical_form(json@) {
            Some(c) => r is Ok && r->Ok_0@ == c,
            None => r is Err,
        },
{
    let value: serde_json::Value = serde_json::from_slice(json).map_err(|e| e.to_string())?;
    serde_jcs::to_vec(&value).map_err(|e| e.to_string())
}

/// `sha2::Sha256::digest`: the 32-byte SHA-256 digest of `data`.
#[verifier::external_body]
fn sha256(data: &[u8]) -> (r: Vec<u8>)
    ensures
        r@ == sha256_of(data@),
        r@.len() == 32,
{
    sha2::Sha256::digest(data).to_vec()
}

/// The lower-case hexadecimal digit for a value below 16.
pub open spec fn hex_digit(n: int) -> char {
    if n < 10 {
        (48 + n) as char
    } else {
        (87 + n) as char
    }
}

/// Lower-case hexadecimal encoding: two digits per byte, high nibble first.
pub open spec fn hex_lower(data: Seq<u8>) -> Seq<char> {
    Seq::new(
        2 * data.len(),
        |i: int|
            if i % 2 == 0 {
                hex_digit(data[i / 2] as int / 16)
            } else {
                hex_digit(data[i / 2] as int % 16)
            },
    )
}

/// `hex::encode`: the lower-case hexadecimal text of `data`.
#[verifier::external_body]
fn hex_encode(data: &[u8]) -> (r: String)
    ensures
        r@ == hex_lower(data@),
{
    hex::encode(data)
}

/// A hexadecimal digit of either case.
pub open spec fn is_hex_char(c: char) -> bool {
    ('0' <= c <= '9') || ('a' <= c <= 'f') || ('A' <= c <= 'F')
}

/// The value of a hexadecimal digit.
pub open spec fn hex_value(c: char) -> int {
    if '0' <= c <= '9' {
        c as int - 48
    } else if 'a' <= c <= 'f' {
        c as int - 87
    } else {
        c as int - 55
    }
}

/// Text that `hex::decode` accepts: an even number of hexadecimal digits.
pub open spec fn is_hex_text(s: Seq<char>) -> bool {
    s.len() % 2 == 0 && forall|i: int| 0 <= i < s.len() ==> is_hex_char(#[trigger] s[i])
}

/// The bytes that hexadecimal text denotes.
pub open spec fn hex_bytes(s: Seq<char>) -> Seq<u8> {
    Seq::new(s.len() / 2, |i: int| (hex_value(s[2 * i]) * 16 + hex_value(s[2 * i + 1])) as u8)
}

/// `hex::decode`: succeeds exactly on an even number of hexadecimal digits of
/// either case, and yields the bytes they denote.
#[verifier::external_body]
fn hex_decode(s: &str) -> (r: Option<Vec<u8>>)
    ensures
        r is Some <==> is_hex_text(s@),
        r matches Some(b) ==> b@ == hex_bytes(s@),
{
    hex::decode(s).ok()
}

/// Exactly 64 hexadecimal digits: 32 bytes in hexadecimal.
pub open spec fn is_hex_32(s: Seq<char>) -> bool {
    s.len() == 64 && forall|i: int| 0 <= i < s.len() ==> is_hex_char(#[trigger] s[i])
}

/// True when `s` is 32 bytes encoded as 64 hexadecimal characters.
pub fn hex_32(s: &str) -> (r: bool)
    ensures
        r == is_hex_32(s@),
{
    proof {
        if is_hex_32(s@) {
            assert(vstd::utf8::is_ascii_chars(s@));
            vstd::string::is_ascii_spec_bytes(s);
        }
    }
    if s.len() != 64 {
        return false;
    }
    match hex_decode(s) {
        None => false,
        Some(bytes) => {
            proof {
                assert(vstd::utf8::is_ascii_chars(s@));
                vstd::string::is_ascii_spec_bytes(s);
            }
            bytes.len() == 32
        },
    }
}

/// The content address of a JSON document: the lower-case hexadecimal SHA-256
/// of its JCS canonical bytes, or `None` when it cannot be canonicalized.
pub open spec fn digest_of(json: Seq<u8>) -> Option<Seq<char>> {
    match jcs_canonical_form(json) {
        Some(c) => Some(hex_lower(sha256_of(c))),
        None => None,
    }
}

/// The hexadecimal text of 32 bytes is 64 hexadecimal digits.
pub proof fn lemma_hex_lower_32(h: Seq<u8>)
    requires
        h.len() == 32,
    ensures
        is_hex_32(hex_lower(h)),
{
    let d = hex_lower(h);
    assert forall|i: int| 0 <= i < d.len() implies is_hex_char(#[trigger] d[i]) by {
        let n = if i % 2 == 0 { h[i / 2] as int / 16 } else { h[i / 2] as int % 16 };
        assert(0 <= n < 16);
    }
}

/// Canonicalize a JSON document with RFC 8785 JCS and hash the canonical
/// bytes: the result is `Ok` with the document's content address, or a
/// `Canonical` error when it cannot be canonicalized.
pub fn jcs_sha256(json: &[u8]) -> (r: Result<String, CoreError>)
    ensures
        match digest_of(json@) {
            Some(d) => r is Ok && r->Ok_0@ == d,
            None => r is Err && r->Err_0 is Canonical,
        },
        r is Ok ==> is_hex_32(r->Ok_0@),
{
    let canonical = match canonicalize_json(json) {
        Ok(c) => c,
        Err(m) => return Err(CoreError::Canonical(m)),
    };
    let hash = sha256(canonical.as_slice());
    proof {
        lemma_hex_lower_32(hash@);
    }
    Ok(hex_encode(hash.as_slice()))
}

} // verus!
