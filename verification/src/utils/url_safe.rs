//! The URL-safe, unpadded base64 engine of the `base64` crate, behind trusted wrappers.

use base64::engine::general_purpose::URL_SAFE_NO_PAD;
use base64::Engine;
use vstd::prelude::*;

verus! {

/// The text that `URL_SAFE_NO_PAD.encode` returns for these bytes.
pub uninterp spec fn url_safe_no_pad_encode(bytes: Seq<u8>) -> Seq<char>;

/// What `URL_SAFE_NO_PAD.decode` returns for the bytes of this text: `None` where the
/// crate reports a `DecodeError`.
pub uninterp spec fn url_safe_no_pad_decode(text: Seq<char>) -> Option<Seq<u8>>;

/// Calls `Engine::encode` of `base64::engine::general_purpose::URL_SAFE_NO_PAD`.
/// Trusted: the result is the encoding named above. The crate computes the output
/// length with a checked multiplication and panics on overflow, which the bound on
/// the input length rules out.
#[verifier::external_body]
pub(crate) fn encode_url_safe(bytes: &[u8]) -> (r: String)
    requires
        bytes@.len() <= usize::MAX / 2,
    ensures
        r@ == url_safe_no_pad_encode(bytes@),
{
    URL_SAFE_NO_PAD.encode(bytes)
}

/// Calls `Engine::decode` of `base64::engine::general_purpose::URL_SAFE_NO_PAD` on the
/// bytes of `text`, with a `DecodeError` turned into `None`.
/// Trusted: the result is the decoding named above, and decoding what the same engine
/// encoded gives the bytes back (the engine writes canonical, unpadded output and its
/// decoder, configured to require no padding, accepts exactly that).
#[verifier::external_body]
pub(crate) fn decode_url_safe(text: &str) -> (r: Option<Vec<u8>>)
    ensures
        r is Some <==> url_safe_no_pad_decode(text@) is Some,
        r matches Some(v) ==> url_safe_no_pad_decode(text@) == Some(v@),
        forall|b: Seq<u8>|
            b.len() <= usize::MAX / 2 && #[trigger] url_safe_no_pad_encode(b) == text@ ==> r is Some
                && r->0@ == b,
{
    URL_SAFE_NO_PAD.decode(text).ok()
}

} // verus!
