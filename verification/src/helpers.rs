//! Shared helpers for the backend key formats: exported keys carry the
//! signature algorithm's name as a byte prefix.

use vstd::prelude::*;

use crate::codec::bytes_eq;
use crate::errors::{CodecError, CryptoError};

verus! {

/// The signature algorithm name that prefixes exported backend keys.
pub open spec fn spec_algorithm_name() -> Seq<u8> {
    seq![101u8, 100u8, 50u8, 53u8, 53u8, 49u8, 57u8]
}

/// The raw key inside an algorithm-prefixed export, if the prefix matches.
pub open spec fn spec_unwrap_key(wrapped: Seq<u8>) -> Option<Seq<u8>> {
    if wrapped.len() >= 7 && wrapped.subrange(0, 7) == spec_algorithm_name() {
        Some(wrapped.subrange(7, wrapped.len() as int))
    } else {
        None
    }
}

/// An algorithm-prefixed export of a raw key.
pub open spec fn spec_wrap_key(raw: Seq<u8>) -> Seq<u8> {
    spec_algorithm_name() + raw
}

/// Wrapping and unwrapping invert each other.
pub proof fn lemma_wrap_key_round_trip(raw: Seq<u8>)
    ensures
        spec_unwrap_key(spec_wrap_key(raw)) == Some(raw),
{
    assert(spec_wrap_key(raw).subrange(0, 7) =~= spec_algorithm_name());
    assert(spec_wrap_key(raw).subrange(7, spec_wrap_key(raw).len() as int) =~= raw);
}

/// The algorithm name as bytes.
pub(crate) fn algorithm_name() -> (r: Vec<u8>)
    ensures
        r@ == spec_algorithm_name(),
{
    let mut v: Vec<u8> = Vec::new();
    v.push(101u8);
    v.push(100u8);
    v.push(50u8);
    v.push(53u8);
    v.push(53u8);
    v.push(49u8);
    v.push(57u8);
    proof {
        assert(v@ =~= spec_algorithm_name());
    }
    v
}

/// Checks that an exported key names the expected signature algorithm and
/// strips the prefix, handing the raw key back.
pub fn validate_key_algorithm(key: &[u8]) -> (r: Result<&[u8], CryptoError>)
    ensures
        match r {
            Ok(raw) => spec_unwrap_key(key@) == Some(raw@),
            Err(e) => e == CryptoError::Codec(CodecError::MalformedKey) && spec_unwrap_key(key@)
                is None,
        },
{
    let n = key.len();
    if n < 7 {
        return Err(CryptoError::Codec(CodecError::MalformedKey));
    }
    let name = algorithm_name();
    let prefix = vstd::slice::slice_subrange(key, 0, 7);
    if !bytes_eq(prefix, name.as_slice()) {
        return Err(CryptoError::Codec(CodecError::MalformedKey));
    }
    Ok(vstd::slice::slice_subrange(key, 7, n))
}

} // verus!
