use create3_vanity::abi::abi_encode_name;
use create3_vanity::create3::{compute_create3_address, Address, Hash32};
use create3_vanity::hexfmt::to_hex_form;
use create3_vanity::search::build_candidate_name;
use alloy::sol_types::SolValue;

fn addr(byte: u8) -> Address {
    Address { bytes: vec![byte; 20] }
}

fn fingerprint(byte: u8) -> Hash32 {
    Hash32 { bytes: vec![byte; 32] }
}

/// The same derivation computed directly with alloy, step by step.
fn derive_reference(deployer: &[u8], name: &str, code_hash: &[u8]) -> Vec<u8> {
    let encoded = name.abi_encode();
    let salt = alloy::primitives::keccak256(&encoded);
    let mut preimage = vec![0xffu8];
    preimage.extend_from_slice(deployer);
    preimage.extend_from_slice(salt.as_slice());
    preimage.extend_from_slice(code_hash);
    let digest = alloy::primitives::keccak256(&preimage);
    digest.as_slice()[12..].to_vec()
}

fn hex_of(address: &Address) -> String {
    String::from_utf8(to_hex_form(&address.bytes)).unwrap()
}

#[test]
fn derive_is_deterministic() {
    let d = addr(0x11);
    let f = fingerprint(0x22);
    let name = b"Transaction Bundler V1.07".to_vec();
    let a1 = compute_create3_address(&d, &name, &f);
    let a2 = compute_create3_address(&d, &name, &f);
    assert_eq!(a1.bytes, a2.bytes);
    assert_eq!(a1.bytes.len(), 20);
}

#[test]
fn derive_matches_direct_composition() {
    let deployer = vec![0xabu8; 20];
    let code_hash = vec![0x5cu8; 32];
    for name in ["", "a", "Transaction Bundler V1.00", "0123456789012345678901234567890123456789"]
    {
        let got = compute_create3_address(
            &Address { bytes: deployer.clone() },
            &name.as_bytes().to_vec(),
            &Hash32 { bytes: code_hash.clone() },
        );
        assert_eq!(got.bytes, derive_reference(&deployer, name, &code_hash), "name {:?}", name);
    }
}

#[test]
fn abi_encoding_matches_reference() {
    for len in [0usize, 1, 24, 31, 32, 33, 63, 64, 65] {
        let name: String = "x".repeat(len);
        let got = abi_encode_name(&name.as_bytes().to_vec());
        assert_eq!(got, name.as_str().abi_encode(), "length {}", len);
    }
}

#[test]
fn reference_vector() {
    let d = addr(0x11);
    let f = fingerprint(0x22);
    let name = b"Transaction Bundler V1.00".to_vec();
    let derived = compute_create3_address(&d, &name, &f);
    assert_eq!(hex_of(&derived), "0x53b20b2bd285a01ea82f75f2f54988d1b821ed6f");
}

#[test]
fn derive_is_sensitive_to_every_input_byte() {
    let deployer = vec![0x11u8; 20];
    let code_hash = vec![0x22u8; 32];
    let name = b"Transaction Bundler V1.05".to_vec();
    let base = compute_create3_address(
        &Address { bytes: deployer.clone() },
        &name,
        &Hash32 { bytes: code_hash.clone() },
    );
    for i in 0..deployer.len() {
        let mut d = deployer.clone();
        d[i] ^= 0x01;
        let a = compute_create3_address(
            &Address { bytes: d },
            &name,
            &Hash32 { bytes: code_hash.clone() },
        );
        assert_ne!(a.bytes, base.bytes, "deployer byte {}", i);
    }
    for i in 0..code_hash.len() {
        let mut c = code_hash.clone();
        c[i] ^= 0x01;
        let a = compute_create3_address(
            &Address { bytes: deployer.clone() },
            &name,
            &Hash32 { bytes: c },
        );
        assert_ne!(a.bytes, base.bytes, "fingerprint byte {}", i);
    }
    for i in 0..name.len() {
        let mut n = name.clone();
        n[i] ^= 0x01;
        let a = compute_create3_address(
            &Address { bytes: deployer.clone() },
            &n,
            &Hash32 { bytes: code_hash.clone() },
        );
        assert_ne!(a.bytes, base.bytes, "name byte {}", i);
    }
}

#[test]
fn hex_form_renders_lowercase_with_prefix() {
    let bytes = vec![0x00u8, 0xff, 0x1a, 0xb2, 0x09];
    assert_eq!(String::from_utf8(to_hex_form(&bytes)).unwrap(), "0x00ff1ab209");
}

#[test]
fn candidate_name_appends_decimal_counter() {
    let base = b"Transaction Bundler V1.0".to_vec();
    assert_eq!(build_candidate_name(&base, 0), b"Transaction Bundler V1.00".to_vec());
    assert_eq!(build_candidate_name(&base, 7), b"Transaction Bundler V1.07".to_vec());
    assert_eq!(
        build_candidate_name(&base, 1234567890),
        b"Transaction Bundler V1.01234567890".to_vec()
    );
    assert_eq!(
        build_candidate_name(&Vec::new(), u64::MAX),
        b"18446744073709551615".to_vec()
    );
}
