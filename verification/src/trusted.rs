//! The crate's boundary to outside computation: base64 coding and the MD5
//! digest. Each wrapper names what the call returns; everything built on
//! those names is verified against them.
use vstd::prelude::*;

use base64::Engine;

verus! {

/// What base64's standard engine returns for given bytes.
pub uninterp spec fn b64_encode_of(data: Seq<u8>) -> Seq<char>;

/// Whether base64's standard engine accepts given text, and the bytes it
/// yields when it does.
pub uninterp spec fn b64_decode_of(s: Seq<char>) -> Option<Seq<u8>>;

/// The lowercase hexadecimal MD5 digest of given bytes.
pub uninterp spec fn md5_hex_of(data: Seq<u8>) -> Seq<char>;

/// Relies on `base64::engine::general_purpose::STANDARD.encode`: standard
/// alphabet with padding, a function of the input bytes alone; empty input
/// encodes to the empty string. The length bound keeps the output-size
/// computation inside `encode` from overflowing.
#[verifier::external_body]
pub(crate) fn b64_encode(data: &Vec<u8>) -> (r: String)
    requires
        data@.len() <= usize::MAX / 4,
    ensures
        r@ == b64_encode_of(data@),
        data@.len() == 0 ==> r@.len() == 0,
{
    base64::engine::general_purpose::STANDARD.encode(data.as_slice())
}

/// Relies on `base64::engine::general_purpose::STANDARD.decode`: whether it
/// succeeds, and the bytes it yields, depend on the input text alone.
#[verifier::external_body]
pub(crate) fn b64_decode(s: &str) -> (r: Option<Vec<u8>>)
    ensures
        match r {
            Some(v) => b64_decode_of(s@) == Some(v@),
            None => b64_decode_of(s@) is None,
        },
{
    base64::engine::general_purpose::STANDARD.decode(s.as_bytes()).ok()
}

/// Relies on `md5::compute` and the digest's `LowerHex` rendering: two
/// lowercase hexadecimal digits for each of the sixteen digest bytes, a
/// function of the input bytes alone.
#[verifier::external_body]
pub(crate) fn md5_hex(data: &Vec<u8>) -> (r: String)
    ensures
        r@ == md5_hex_of(data@),
        r@.len() == 32,
{
    format!("{:x}", md5::compute(data.as_slice()))
}

} // verus!
