//! Lowercase hex rendering of byte strings. The checksummed textual form of
//! an address, once lowercased, is `0x` followed by the lowercase hex digits
//! of its bytes; prefix matching works on that form.

use vstd::prelude::*;

verus! {

/// ASCII character of the lowercase hex digit `d` (for `d < 16`).
pub open spec fn hex_digit(d: u8) -> u8 {
    if d < 10 {
        (48 + d) as u8
    } else {
        (87 + d) as u8
    }
}

/// Lowercase hex rendering of `bytes`, two digits per byte, high nibble
/// first.
pub open spec fn lower_hex(bytes: Seq<u8>) -> Seq<u8> {
    Seq::new(
        2 * bytes.len(),
        |i: int|
            if i % 2 == 0 {
                hex_digit(bytes[i / 2] >> 4u8)
            } else {
                hex_digit(bytes[i / 2] & 0x0fu8)
            },
    )
}

/// The textual form of an address used for prefix matching: `0x` followed by
/// the lowercase hex digits of its bytes.
pub open spec fn hex_form(bytes: Seq<u8>) -> Seq<u8> {
    seq![48u8, 120u8] + lower_hex(bytes)
}

/// ASCII character of the lowercase hex digit `d`.
fn hex_digit_char(d: u8) -> (r: u8)
    requires
        d < 16,
    ensures
        r == hex_digit(d),
{
    if d < 10 {
        48 + d
    } else {
        87 + d
    }
}

/// Renders `bytes` as `0x` followed by its lowercase hex digits.
pub fn to_hex_form(bytes: &Vec<u8>) -> (r: Vec<u8>)
    ensures
        r@ == hex_form(bytes@),
{
    let mut r: Vec<u8> = Vec::new();
    r.push(48);
    r.push(120);
    assert(r@ =~= seq![48u8, 120u8] + lower_hex(bytes@.subrange(0, 0)));
    let mut i: usize = 0;
    while i < bytes.len()
        invariant
            i <= bytes@.len(),
            r@ == seq![48u8, 120u8] + lower_hex(bytes@.subrange(0, i as int)),
        decreases bytes@.len() - i,
    {
        let b = bytes[i];
        assert(b >> 4u8 < 16) by (bit_vector);
        assert(b & 0x0fu8 < 16) by (bit_vector);
        r.push(hex_digit_char(b >> 4));
        r.push(hex_digit_char(b & 0x0f));
        assert(lower_hex(bytes@.subrange(0, i + 1)) =~= lower_hex(
            bytes@.subrange(0, i as int),
        ).push(hex_digit(b >> 4u8)).push(hex_digit(b & 0x0fu8)));
        i = i + 1;
    }
    assert(bytes@.subrange(0, bytes@.len() as int) =~= bytes@);
    r
}

} // verus!
