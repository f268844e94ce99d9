//! Base64 decoding of the evidence's binary parts.

use vstd::prelude::*;
use base64::Engine;

verus! {

/// The bytes that the standard base64 alphabet (with padding) decodes `s`
/// to, or `None` where `s` is not valid base64, as the `base64` crate decides.
pub uninterp spec fn base64_decoded(s: Seq<char>) -> Option<Seq<u8>>;

/// Relies on base64's `STANDARD.decode`: the decoded bytes, or an error for
/// text that is not valid padded base64. The outcome depends on `s` alone.
#[verifier::external_body]
pub(crate) fn decode_base64(s: &str) -> (r: Option<Vec<u8>>)
    ensures
        match r {
            Some(v) => base64_decoded(s@) == Some(v@),
            None => base64_decoded(s@) is None,
        },
{
    base64::engine::general_purpose::STANDARD.decode(s).ok()
}

} // verus!
