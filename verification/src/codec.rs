//! SHA-256 digests and standard base64, as computed by the `sha2` and
//! `base64` crates.
use vstd::prelude::*;
use base64::Engine;
use sha2::Digest;

verus! {

/// The SHA-256 digest of a byte string (FIPS 180-4), as `sha2` computes it.
pub uninterp spec fn sha256(data: Seq<u8>) -> Seq<u8>;

/// The padded standard base64 encoding (RFC 4648, section 4) of a byte string,
/// as `base64::engine::general_purpose::STANDARD` computes it.
pub uninterp spec fn base64_standard(bytes: Seq<u8>) -> Seq<char>;

/// What `base64::engine::general_purpose::STANDARD` decodes a text into, or
/// `None` where it refuses the text.
pub uninterp spec fn base64_standard_decoded(text: Seq<char>) -> Option<Seq<u8>>;

/// What an encoding of `bytes` by `base64_encode` showed of the encoding:
/// it decodes back to the bytes.
pub open spec fn base64_roundtrips(bytes: Seq<u8>) -> bool {
    base64_standard_decoded(base64_standard(bytes)) == Some(bytes)
}

/// `sha2::Sha256::digest`: the 32-byte SHA-256 digest of `data`.
#[verifier::external_body]
pub fn sha256_digest(data: &[u8]) -> (r: [u8; 32])
    ensures
        r@ == sha256(data@),
{
    sha2::Sha256::digest(data).into()
}

/// `STANDARD.encode`: the standard base64 encoding of `bytes`;
/// `STANDARD.decode` gives the bytes back. The crate panics when the encoded
/// length overflows `usize`, which the bound on the input rules out.
#[verifier::external_body]
pub fn base64_encode(bytes: &[u8]) -> (r: String)
    requires
        bytes@.len() <= isize::MAX,
    ensures
        r@ == base64_standard(bytes@),
        base64_standard_decoded(r@) == Some(bytes@),
{
    base64::engine::general_purpose::STANDARD.encode(bytes)
}

/// `STANDARD.decode`: the bytes a standard base64 text stands for, or `None`
/// where the crate refuses the text (its error is dropped). Like every
/// `Vec<u8>`, the result holds at most `isize::MAX` bytes.
#[verifier::external_body]
pub fn base64_decode(text: &str) -> (r: Option<Vec<u8>>)
    ensures
        r is Some <==> base64_standard_decoded(text@) is Some,
        r matches Some(v) ==> base64_standard_decoded(text@) == Some(v@),
        r matches Some(v) ==> v@.len() <= isize::MAX,
{
    base64::engine::general_purpose::STANDARD.decode(text).ok()
}

} // verus!
