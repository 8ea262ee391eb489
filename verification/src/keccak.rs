//! Trusted boundary around the keccak-256 hash.

use vstd::prelude::*;

verus! {

/// The keccak-256 digest of `input`. The digest is a pure function of the
/// input bytes alone, so it is given a name here and otherwise left
/// unspecified: no contract of this crate states what the digest of a given
/// input is.
pub uninterp spec fn keccak256_of(input: Seq<u8>) -> Seq<u8>;

/// Relies on alloy::primitives::keccak256: it returns the 32-byte keccak-256
/// digest of the input, a function of the input bytes alone.
#[verifier::external_body]
pub fn keccak256(input: &Vec<u8>) -> (r: Vec<u8>)
    ensures
        r@ == keccak256_of(input@),
        r@.len() == 32,
{
    alloy::primitives::keccak256(input.as_slice()).as_slice().to_vec()
}

} // verus!
