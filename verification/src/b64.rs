//! Base64 encoding and decoding, named rather than restated: the engine
//! relies on the outside implementation of the standard alphabet.

use vstd::prelude::*;

verus! {

/// The byte sequences of an optional byte vector.
pub open spec fn view_opt_vec(o: Option<Vec<u8>>) -> Option<Seq<u8>> {
    match o {
        Some(v) => Some(v@),
        None => None,
    }
}

/// The standard base64 encoding (with padding) of a byte sequence.
pub uninterp spec fn b64_of(data: Seq<u8>) -> Seq<char>;

/// The standard base64 decoding of a byte sequence of encoded text; `None`
/// where the text is not a valid encoding.
pub uninterp spec fn b64_dec(data: Seq<u8>) -> Option<Seq<u8>>;

/// Relies on base64::encode: the standard alphabet with padding, a function
/// of the input alone; an empty input encodes to the empty string.
#[verifier::external_body]
pub fn b64_encode(data: &[u8]) -> (r: String)
    ensures
        r@ == b64_of(data@),
        data@.len() == 0 ==> r@.len() == 0,
{
    base64::encode(data)
}

/// Relies on base64::decode with the standard alphabet: which inputs it
/// accepts and what they decode to is a function of the input alone; an
/// empty input decodes to the empty sequence.
#[verifier::external_body]
pub fn b64_decode(data: &[u8]) -> (r: Option<Vec<u8>>)
    ensures
        view_opt_vec(r) == b64_dec(data@),
        data@.len() == 0 ==> view_opt_vec(r) == Some(Seq::<u8>::empty()),
{
    base64::decode(data).ok()
}

} // verus!
