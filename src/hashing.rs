//! Strong (SHA-256) and legacy (MD5) content digests, rendered as lowercase hex.

use vstd::prelude::*;

use crate::hex::{hex_of, lemma_hex_of_chars, to_hex, is_hex_char};

verus! {

/// The 32 bytes of SHA-256 of `data`.
pub uninterp spec fn sha256_of(data: Seq<u8>) -> Seq<u8>;

/// The 16 bytes of MD5 of `data`.
pub uninterp spec fn md5_of(data: Seq<u8>) -> Seq<u8>;

/// Relies on `sha2::Sha256::digest` (through the `sha2::Digest` trait): the
/// 32-byte SHA-256 hash of the bytes given, which depends on those bytes alone.
#[verifier::external_body]
fn sha256_bytes(data: &[u8]) -> (r: Vec<u8>)
    ensures
        r@ == sha256_of(data@),
        r@.len() == 32,
{
    <sha2::Sha256 as sha2::Digest>::digest(data).to_vec()
}

/// Relies on `md5::compute`: the 16-byte MD5 hash of the bytes given, which
/// depends on those bytes alone.
#[verifier::external_body]
fn md5_bytes(data: &[u8]) -> (r: Vec<u8>)
    ensures
        r@ == md5_of(data@),
        r@.len() == 16,
{
    md5::compute(data).0.to_vec()
}

/// The strong digest of some content: hex of its SHA-256.
pub open spec fn strong_digest_of(data: Seq<u8>) -> Seq<u8> {
    hex_of(sha256_of(data))
}

/// The legacy digest of some content: hex of its MD5.
pub open spec fn legacy_digest_of(data: Seq<u8>) -> Seq<u8> {
    hex_of(md5_of(data))
}

/// The strong digest of a file's content, as 64 lowercase hex characters.
pub fn strong_digest(data: &[u8]) -> (r: Vec<u8>)
    ensures
        r@ == strong_digest_of(data@),
        r@.len() == 64,
        forall|k: int| 0 <= k < r@.len() ==> is_hex_char(#[trigger] r@[k]),
{
    let h = sha256_bytes(data);
    proof {
        lemma_hex_of_chars(h@);
    }
    to_hex(h.as_slice())
}

/// The legacy digest of a file's content, as 32 lowercase hex characters.
pub fn legacy_digest(data: &[u8]) -> (r: Vec<u8>)
    ensures
        r@ == legacy_digest_of(data@),
        r@.len() == 32,
        forall|k: int| 0 <= k < r@.len() ==> is_hex_char(#[trigger] r@[k]),
{
    let h = md5_bytes(data);
    proof {
        lemma_hex_of_chars(h@);
    }
    to_hex(h.as_slice())
}

/// Hashing is idempotent: the strong digest of unchanged content is the same
/// on every call.
pub proof fn lemma_strong_digest_idempotent(first: Seq<u8>, second: Seq<u8>)
    requires
        first == second,
    ensures
        strong_digest_of(first) == strong_digest_of(second),
{
}

} // verus!
