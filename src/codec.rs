//! Encodings and digests that the protocol needs, computed by outside crates.

use vstd::prelude::*;

verus! {

/// Padded standard base64 of a byte string, as `data_encoding::BASE64` writes it.
pub uninterp spec fn base64_of(bytes: Seq<u8>) -> Seq<char>;

/// SHA-1 digest of a byte string, as `ring` computes it.
pub uninterp spec fn sha1_of(bytes: Seq<u8>) -> Seq<u8>;

/// HTTP-date (IMF-fixdate) of a time given in seconds since the Unix epoch,
/// as `httpdate` writes it.
pub uninterp spec fn http_date_of(secs: u64) -> Seq<char>;

/// Relies on `data_encoding::BASE64.encode`: padded standard base64.
#[verifier::external_body]
pub(crate) fn base64_encode(bytes: &[u8]) -> (r: String)
    ensures
        r@ == base64_of(bytes@),
{
    data_encoding::BASE64.encode(bytes)
}

/// Relies on `ring::digest::digest` with `SHA1_FOR_LEGACY_USE_ONLY`: the digest,
/// whose length is that algorithm's 20-byte output length.
#[verifier::external_body]
pub(crate) fn sha1(bytes: &[u8]) -> (r: Vec<u8>)
    ensures
        r@ == sha1_of(bytes@),
        r@.len() == 20,
{
    ring::digest::digest(&ring::digest::SHA1_FOR_LEGACY_USE_ONLY, bytes).as_ref().to_vec()
}

/// Relies on `httpdate::fmt_http_date`, which panics from the year 10000 on.
#[verifier::external_body]
pub(crate) fn http_date(secs: u64) -> (r: String)
    requires
        secs < 253402300800,
    ensures
        r@ == http_date_of(secs),
{
    httpdate::fmt_http_date(std::time::UNIX_EPOCH + std::time::Duration::from_secs(secs))
}

/// Relies on `rand::random`: sixteen random bytes; nothing is known of them.
#[verifier::external_body]
pub(crate) fn random_key() -> (r: [u8; 16]) {
    rand::random::<[u8; 16]>()
}

} // verus!
