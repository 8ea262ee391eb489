use create3_vanity::create3::{compute_create3_address, Address, Hash32};
use create3_vanity::hexfmt::to_hex_form;
use create3_vanity::search::{find_vanity_address, scan_chunk, SearchConfig};

fn config(prefix: &str, chunk_size: u64, max_counter: u64) -> SearchConfig {
    SearchConfig {
        deployer: Address { bytes: vec![0x11u8; 20] },
        code_fingerprint: Hash32 { bytes: vec![0x22u8; 32] },
        prefix: prefix.as_bytes().to_vec(),
        base_label: b"Transaction Bundler V1.0".to_vec(),
        chunk_size,
        max_counter,
    }
}

fn hex_at(cfg: &SearchConfig, counter: u64) -> String {
    let mut name = cfg.base_label.clone();
    name.extend_from_slice(format!("{}", counter).as_bytes());
    let address = compute_create3_address(&cfg.deployer, &name, &cfg.code_fingerprint);
    String::from_utf8(to_hex_form(&address.bytes)).unwrap()
}

fn counter_of(name: &[u8], base: &[u8]) -> u64 {
    assert!(name.starts_with(base));
    String::from_utf8(name[base.len()..].to_vec()).unwrap().parse().unwrap()
}

#[test]
fn empty_prefix_returns_counter_zero() {
    let cfg = config("", 16, 10);
    let (name, address) = find_vanity_address(&cfg).unwrap();
    assert_eq!(name, b"Transaction Bundler V1.00".to_vec());
    let again = compute_create3_address(&cfg.deployer, &name, &cfg.code_fingerprint);
    assert_eq!(address.bytes, again.bytes);
}

#[test]
fn exhausted_range_returns_not_found() {
    let cfg = config("zz", 3, 10);
    // the prefix cannot occur: checked here by direct enumeration
    for counter in 0..10 {
        assert!(!hex_at(&cfg, counter).starts_with("zz"));
    }
    assert!(find_vanity_address(&cfg).is_err());
}

#[test]
fn single_chunk_returns_smallest_matching_counter() {
    let base = config("", 16, 10);
    // take the first hex digits of the address at counter 5 as the prefix,
    // then compute the smallest counter matching it by enumeration
    let prefix: String = hex_at(&base, 5).chars().take(5).collect();
    let cfg = config(&prefix, 16, 10);
    let expected = (0..10).find(|&c| hex_at(&cfg, c).starts_with(&prefix)).unwrap();
    let (name, address) = find_vanity_address(&cfg).unwrap();
    let counter = counter_of(&name, &cfg.base_label);
    assert_eq!(counter, expected);
    let rendered = String::from_utf8(to_hex_form(&address.bytes)).unwrap();
    assert!(rendered.starts_with(&prefix));
}

#[test]
fn multi_chunk_winner_is_first_of_its_chunk() {
    // "0x" matches every address, so every chunk reports its own first
    // counter and any of them may win
    let cfg = config("0x", 3, 10);
    let (name, address) = find_vanity_address(&cfg).unwrap();
    let counter = counter_of(&name, &cfg.base_label);
    assert!(counter < 10);
    assert_eq!(counter % 3, 0);
    let again = compute_create3_address(&cfg.deployer, &name, &cfg.code_fingerprint);
    assert_eq!(address.bytes, again.bytes);
}

#[test]
fn chunks_cover_the_range_without_overlap() {
    // with a prefix every counter matches, each chunk reports its first
    // counter; the last, ragged chunk starts at 9
    let cfg = config("0x", 3, 10);
    assert_eq!(scan_chunk(&cfg, 0), Some(0));
    assert_eq!(scan_chunk(&cfg, 1), Some(3));
    assert_eq!(scan_chunk(&cfg, 2), Some(6));
    assert_eq!(scan_chunk(&cfg, 3), Some(9));
    // with an impossible prefix every chunk is exhausted
    let none = config("zz", 3, 10);
    for chunk in 0..4 {
        assert_eq!(scan_chunk(&none, chunk), None);
    }
}

#[test]
fn smallest_range_still_searched() {
    let cfg = config("zz", 1, 1);
    assert!(find_vanity_address(&cfg).is_err());
    let found = config("", 1, 1);
    let (name, _) = find_vanity_address(&found).unwrap();
    assert_eq!(counter_of(&name, &found.base_label), 0);
}
