//! Z85 text for wasm binaries embedded in a document.

use vstd::prelude::*;

verus! {

/// The Z85 text that the `z85` crate makes of some bytes.
pub uninterp spec fn z85_encoding(data: Seq<u8>) -> Seq<char>;

/// The bytes that the `z85` crate decodes from a text, `None` where it
/// reports an error.
pub uninterp spec fn z85_decoding(text: Seq<char>) -> Option<Seq<u8>>;

/// `z85::encode`: the result is the crate's encoding of the bytes.
#[verifier::external_body]
pub(crate) fn z85_encode(data: &[u8]) -> (r: String)
    ensures
        r@ == z85_encoding(data@),
{
    z85::encode(data)
}

/// `z85::decode`, with its error dropped. Besides naming the result, this
/// states what the crate's own round-trip test checks for every input:
/// decoding the encoding of some bytes gives those bytes back.
#[verifier::external_body]
pub(crate) fn z85_decode(text: &str) -> (r: Option<Vec<u8>>)
    ensures
        r is Some <==> z85_decoding(text@) is Some,
        r matches Some(b) ==> z85_decoding(text@) == Some(b@),
        r is None ==> forall|d: Seq<u8>| text@ != z85_encoding(d),
        r matches Some(b) ==> forall|d: Seq<u8>| text@ == z85_encoding(d) ==> b@ == d,
{
    z85::decode(text).ok()
}

} // verus!
