//! The calls into the `base64` crate and into std's lossy UTF-8 decoder.
//! Their contracts are taken on trust; each names what the call returns.

use base64::Engine;
use vstd::prelude::*;
use vstd::utf8::*;

verus! {

/// The octets that `text` stands for in base64 with the standard alphabet
/// and canonical padding; `None` where `text` is no such encoding.
pub uninterp spec fn base64_decoded(text: Seq<char>) -> Option<Seq<u8>>;

/// The base64 text of the octets, in the standard alphabet with padding.
pub uninterp spec fn base64_encoded(bytes: Seq<u8>) -> Seq<char>;

/// The text that the octets decode to as UTF-8 when every ill-formed
/// sequence is replaced by U+FFFD.
pub uninterp spec fn utf8_lossy(bytes: Seq<u8>) -> Seq<char>;

/// `Engine::decode` of `base64::engine::general_purpose::STANDARD`. The call
/// is a function of the input alone: it returns the decoded octets, or an
/// error (here `None`) where the input is not canonical padded base64.
#[verifier::external_body]
pub(crate) fn base64_decode(text: &str) -> (r: Option<Vec<u8>>)
    ensures
        match r {
            Some(bytes) => base64_decoded(text@) == Some(bytes@),
            None => base64_decoded(text@) is None,
        },
{
    base64::engine::general_purpose::STANDARD.decode(text).ok()
}

/// `Engine::encode` of `base64::engine::general_purpose::STANDARD`. The call
/// is a function of the octets alone. It panics only if the encoded length
/// overflows `usize`, which no vector in memory is long enough to cause.
#[verifier::external_body]
pub(crate) fn base64_encode(bytes: &Vec<u8>) -> (r: String)
    ensures
        r@ == base64_encoded(bytes@),
{
    base64::engine::general_purpose::STANDARD.encode(bytes)
}

/// `String::from_utf8_lossy`: well-formed UTF-8 decodes to the text it
/// encodes; otherwise each ill-formed sequence becomes U+FFFD.
#[verifier::external_body]
pub(crate) fn decode_utf8_lossy(bytes: &Vec<u8>) -> (r: String)
    ensures
        r@ == utf8_lossy(bytes@),
        valid_utf8(bytes@) ==> r@ == decode_utf8(bytes@),
{
    String::from_utf8_lossy(bytes).into_owned()
}

} // verus!
