//! ABI encoding of a single dynamic string argument: a 32-byte offset word,
//! a 32-byte length word, then the string's bytes padded with zeros to a
//! 32-byte boundary. This is the encoding the deploying contract applies to
//! the candidate name before hashing it into the salt.

use vstd::prelude::*;
use crate::bytes::push_all;

verus! {

/// Big-endian 32-byte word holding the 64-bit value `n`.
pub open spec fn abi_word(n: u64) -> Seq<u8> {
    Seq::new(
        32,
        |i: int|
            if i < 24 {
                0u8
            } else {
                (n >> (((31 - i) * 8) as u64)) as u8
            },
    )
}

/// `n` zero bytes.
pub open spec fn zeros(n: nat) -> Seq<u8> {
    Seq::new(n, |i: int| 0u8)
}

/// Zero bytes needed to pad a string of `n` bytes to a 32-byte boundary.
pub open spec fn pad_len(n: nat) -> nat {
    ((32 - (n as int % 32)) % 32) as nat
}

/// The ABI encoding of `name` as a dynamic string argument.
pub open spec fn abi_encoded_name(name: Seq<u8>) -> Seq<u8> {
    abi_word(32) + abi_word(name.len() as u64) + name + zeros(pad_len(name.len()))
}

/// Appends the big-endian 32-byte word for `n` to `out`.
fn push_abi_word(out: &mut Vec<u8>, n: u64)
    ensures
        final(out)@ == old(out)@ + abi_word(n),
{
    let ghost out0 = out@;
    let mut i: usize = 0;
    assert(out@ =~= out0 + abi_word(n).subrange(0, 0));
    while i < 32
        invariant
            i <= 32,
            out@ == out0 + abi_word(n).subrange(0, i as int),
        decreases 32 - i,
    {
        if i < 24 {
            out.push(0u8);
        } else {
            let sh: u64 = ((31 - i) * 8) as u64;
            out.push(#[verifier::truncate] ((n >> sh) as u8));
        }
        assert(abi_word(n).subrange(0, i + 1) =~= abi_word(n).subrange(0, i as int).push(
            abi_word(n)[i as int],
        ));
        i = i + 1;
    }
    assert(abi_word(n).subrange(0, 32) =~= abi_word(n));
}

/// Encodes `name` as the ABI encoding of a single dynamic string argument.
pub fn abi_encode_name(name: &Vec<u8>) -> (r: Vec<u8>)
    ensures
        r@ == abi_encoded_name(name@),
{
    let mut r: Vec<u8> = Vec::new();
    push_abi_word(&mut r, 32);
    push_abi_word(&mut r, name.len() as u64);
    push_all(&mut r, name);
    let pad: usize = (32 - (name.len() % 32)) % 32;
    let ghost before_pad = r@;
    let mut i: usize = 0;
    assert(r@ =~= before_pad + zeros(0));
    while i < pad
        invariant
            i <= pad,
            r@ == before_pad + zeros(i as nat),
        decreases pad - i,
    {
        r.push(0u8);
        assert(before_pad + zeros(i as nat).push(0u8) =~= before_pad + zeros((i + 1) as nat));
        i = i + 1;
    }
    assert(pad == pad_len(name@.len()));
    assert(r@ =~= abi_encoded_name(name@));
    r
}

} // verus!
