//! The deterministic three-step address derivation: ABI-encode the candidate
//! name, hash the encoding into a salt, then hash `0xff`, the deployer, the
//! salt and the creation-code fingerprint; the derived address is the low 20
//! bytes of that digest.

use vstd::prelude::*;
use crate::abi::{abi_encode_name, abi_encoded_name};
use crate::bytes::push_all;
use crate::keccak::{keccak256, keccak256_of};

verus! {

/// A 20-byte account address.
#[derive(Clone)]
pub struct Address {
    pub bytes: Vec<u8>,
}

impl Address {
    /// Well-formed: exactly 20 bytes.
    pub open spec fn wf(self) -> bool {
        self.bytes@.len() == 20
    }
}

/// A 32-byte digest, as used for the creation-code fingerprint.
#[derive(Clone)]
pub struct Hash32 {
    pub bytes: Vec<u8>,
}

impl Hash32 {
    /// Well-formed: exactly 32 bytes.
    pub open spec fn wf(self) -> bool {
        self.bytes@.len() == 32
    }
}

/// The per-name salt: the keccak-256 digest of the ABI-encoded name.
pub open spec fn salt_of(name: Seq<u8>) -> Seq<u8> {
    keccak256_of(abi_encoded_name(name))
}

/// The bytes hashed in the final derivation step.
pub open spec fn create3_preimage(deployer: Seq<u8>, salt: Seq<u8>, code_hash: Seq<u8>) -> Seq<
    u8,
> {
    seq![0xffu8] + deployer + salt + code_hash
}

/// The derived deployment address: bytes 12..32 of the final digest.
pub open spec fn derived_address(deployer: Seq<u8>, name: Seq<u8>, code_hash: Seq<u8>) -> Seq<
    u8,
> {
    keccak256_of(create3_preimage(deployer, salt_of(name), code_hash)).subrange(12, 32)
}

/// Derives the deployment address for `name`.
pub fn compute_create3_address(
    deployer_address: &Address,
    name: &Vec<u8>,
    creation_code_hash: &Hash32,
) -> (r: Address)
    requires
        deployer_address.wf(),
        creation_code_hash.wf(),
    ensures
        r.wf(),
        r.bytes@ == derived_address(deployer_address.bytes@, name@, creation_code_hash.bytes@),
{
    let encoded_name = abi_encode_name(name);
    let salt = keccak256(&encoded_name);
    let mut preimage: Vec<u8> = Vec::new();
    preimage.push(0xff);
    push_all(&mut preimage, &deployer_address.bytes);
    push_all(&mut preimage, &salt);
    push_all(&mut preimage, &creation_code_hash.bytes);
    assert(preimage@ =~= create3_preimage(deployer_address.bytes@, salt@,
        creation_code_hash.bytes@));
    let digest = keccak256(&preimage);
    let mut out: Vec<u8> = Vec::new();
    let mut i: usize = 12;
    assert(out@ =~= digest@.subrange(12, 12));
    while i < 32
        invariant
            12 <= i <= 32,
            digest@.len() == 32,
            out@ == digest@.subrange(12, i as int),
        decreases 32 - i,
    {
        out.push(digest[i]);
        assert(digest@.subrange(12, i + 1) =~= digest@.subrange(12, i as int).push(
            digest@[i as int],
        ));
        i = i + 1;
    }
    Address { bytes: out }
}

/// Determinism of the derivation: the derived address is a function of the
/// deployer, the name and the fingerprint alone, so any two derivations from
/// equal inputs agree.
pub proof fn lemma_derivation_deterministic(
    deployer: Seq<u8>,
    name: Seq<u8>,
    code_hash: Seq<u8>,
    a1: Seq<u8>,
    a2: Seq<u8>,
)
    requires
        a1 == derived_address(deployer, name, code_hash),
        a2 == derived_address(deployer, name, code_hash),
    ensures
        a1 == a2,
{
}

} // verus!
