//! Base64 and HMAC-SHA256, as the `base64`, `hmac` and `sha2` crates
//! compute them.
use vstd::prelude::*;
use base64::Engine;
use hmac::Mac;

verus! {

/// The standard, padded Base64 text of `data` (`base64`'s `STANDARD` engine).
pub uninterp spec fn spec_base64_encode(data: Seq<u8>) -> Seq<char>;

/// The bytes that the standard Base64 text `text` decodes to, or `None`
/// when it is not valid standard Base64 (`base64`'s `STANDARD` engine).
pub uninterp spec fn spec_base64_decode(text: Seq<char>) -> Option<Seq<u8>>;

/// The HMAC-SHA256 tag of `msg` under `key` (`hmac` over `sha2::Sha256`).
pub uninterp spec fn spec_hmac_sha256(key: Seq<u8>, msg: Seq<u8>) -> Seq<u8>;

/// The length of the padded Base64 text of `n` bytes.
pub open spec fn base64_len(n: nat) -> nat {
    4 * ((n + 2) / 3)
}

/// `base64::engine::general_purpose::STANDARD.encode`. Claims: the text is
/// the named standard Base64 text of `data`, four characters for every
/// started group of three bytes, and decoding it with the same engine gives
/// `data` back (the crate documents and tests this round trip). The crate
/// panics when that length does not fit in a `usize`, which `requires`
/// rules out.
#[verifier::external_body]
pub(crate) fn base64_encode(data: &[u8]) -> (r: String)
    requires
        base64_len(data@.len()) <= usize::MAX,
    ensures
        r@ == spec_base64_encode(data@),
        r@.len() == base64_len(data@.len()),
        spec_base64_decode(r@) == Some(data@),
{
    base64::engine::general_purpose::STANDARD.encode(data)
}

/// `base64::engine::general_purpose::STANDARD.decode` of a string's bytes.
/// Claims: the result is the named decoding of `text`; the error is dropped.
#[verifier::external_body]
pub(crate) fn base64_decode(text: &str) -> (r: Option<Vec<u8>>)
    ensures
        match r {
            Some(v) => spec_base64_decode(text@) == Some(v@),
            None => spec_base64_decode(text@) is None,
        },
{
    match base64::engine::general_purpose::STANDARD.decode(text) {
        Ok(v) => Some(v),
        Err(_) => None,
    }
}

/// HMAC-SHA256 of `msg` under `key`: `Hmac::<Sha256>::new_from_slice`,
/// `update` and `finalize`. Claims: the tag is the named HMAC-SHA256 of
/// `key` and `msg`, and is 32 bytes long. `new_from_slice` accepts keys of
/// every length, so it never fails.
#[verifier::external_body]
pub(crate) fn hmac_sha256(key: &[u8], msg: &[u8]) -> (r: Vec<u8>)
    ensures
        r@ == spec_hmac_sha256(key@, msg@),
        r@.len() == 32,
{
    let mut mac = <hmac::Hmac<sha2::Sha256> as Mac>::new_from_slice(key).expect("HMAC accepts keys of any length");
    mac.update(msg);
    mac.finalize().into_bytes().to_vec()
}

} // verus!
