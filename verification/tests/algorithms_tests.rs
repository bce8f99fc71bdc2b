use jxpoolminer::algorithms::{batch_size, search_batch};
use jxpoolminer::algorithms::sha256::check_target;
use jxpoolminer::algorithms::ethash::ethash_hash;
use jxpoolminer::types::{Algorithm, DeviceType, GPUVendor};

fn sha256_ref(data: &[u8]) -> [u8; 32] {
    let out = <sha2::Sha256 as sha2::Digest>::digest(data);
    let mut r = [0u8; 32];
    r.copy_from_slice(&out);
    r
}

fn keccak256_ref(data: &[u8]) -> [u8; 32] {
    let out = <sha3::Keccak256 as sha3::Digest>::digest(data);
    let mut r = [0u8; 32];
    r.copy_from_slice(&out);
    r
}

#[test]
fn test_check_target() {
    let hash = [0u8; 32];
    let target = vec![0xFF; 32];
    assert!(check_target(&hash, &target));

    let hash = [0xFF; 32];
    let target = vec![0x00; 32];
    assert!(!check_target(&hash, &target));
}

#[test]
fn test_check_target_equal_sequences_accepted() {
    let mut hash = [0u8; 32];
    for (i, b) in hash.iter_mut().enumerate() {
        *b = i as u8;
    }
    let target: Vec<u8> = hash.to_vec();
    assert!(check_target(&hash, &target));
}

#[test]
fn test_check_target_first_difference_decides() {
    let mut hash = [0x10u8; 32];
    let mut target = vec![0x10u8; 32];
    hash[3] = 0x05;
    target[3] = 0x06;
    // later bytes in the other direction must not matter
    hash[4] = 0xFF;
    target[4] = 0x00;
    assert!(check_target(&hash, &target));

    hash[3] = 0x07;
    assert!(!check_target(&hash, &target));
}

#[test]
fn test_check_target_shorter_target_compares_prefix() {
    let mut hash = [0x05u8; 32];
    let target = vec![0x05u8];
    assert!(check_target(&hash, &target));
    hash[0] = 0x06;
    assert!(!check_target(&hash, &target));
    hash[0] = 0x04;
    assert!(check_target(&hash, &target));
}

#[test]
fn test_check_target_empty_target_zero_prefix_rule() {
    let mut hash = [0u8; 32];
    hash[2] = 0x99;
    assert!(check_target(&hash, &[]));
    hash[1] = 0x01;
    assert!(!check_target(&hash, &[]));

    // the Ethash variant wants three zero bytes
    let mut h3 = [0u8; 32];
    h3[3] = 0x44;
    assert!(jxpoolminer::algorithms::ethash::check_target(&h3, &[]));
    h3[2] = 0x01;
    assert!(!jxpoolminer::algorithms::ethash::check_target(&h3, &[]));
}

#[test]
fn test_search_batch_finds_nonce_zero_on_permissive_target() {
    let header: Vec<u8> = vec![1, 2, 3, 4];
    let target: Vec<u8> = vec![0xFF; 32];
    let found = search_batch(Algorithm::SHA256, &header, &target, 0, 100);
    let (nonce, hash) = found.expect("an all-ones target accepts the first attempt");
    assert_eq!(nonce, 0);
    assert_eq!(hash.len(), 32);

    // the hash must be the real digest of header plus little-endian nonce
    let mut message = header.clone();
    message.extend_from_slice(&0u64.to_le_bytes());
    assert_eq!(hash, sha256_ref(&message).to_vec());
}

#[test]
fn test_search_batch_matches_reference_rule_on_empty_target() {
    // with an empty target the family accepts exactly a two-zero-byte prefix;
    // recompute the expected first hit with the reference hasher
    let header: Vec<u8> = vec![9, 9, 9];
    let count = 2000u64;
    let mut expected: Option<u64> = None;
    for nonce in 0..count {
        let mut message = header.clone();
        message.extend_from_slice(&nonce.to_le_bytes());
        let h = sha256_ref(&message);
        if h[0] == 0 && h[1] == 0 {
            expected = Some(nonce);
            break;
        }
    }
    let empty: Vec<u8> = Vec::new();
    let found = search_batch(Algorithm::SHA256, &header, &empty, 0, count);
    assert_eq!(found.map(|f| f.0), expected);
}

#[test]
fn test_ethash_hash_is_double_keccak() {
    let header: Vec<u8> = vec![0xde, 0xad, 0xbe, 0xef];
    let nonce = 7u64;
    let got = ethash_hash(&header, nonce);
    let mut message = header.clone();
    message.extend_from_slice(&nonce.to_le_bytes());
    let expected = keccak256_ref(&keccak256_ref(&message));
    assert_eq!(got, expected);
}

#[test]
fn test_batch_sizes_per_family() {
    assert_eq!(batch_size(Algorithm::SHA256), 10000);
    assert_eq!(batch_size(Algorithm::Ethash), 5000);
    assert_eq!(batch_size(Algorithm::GXHash), 10000);
}

#[test]
fn test_algorithm_names() {
    assert_eq!(Algorithm::SHA256.name(), "SHA-256");
    assert_eq!(Algorithm::Ethash.name(), "Ethash");
    assert_eq!(Algorithm::GXHash.name(), "GXHash");
}

#[test]
fn test_algorithm_for_device() {
    assert_eq!(Algorithm::for_device(&DeviceType::ASIC), Algorithm::SHA256);
    assert_eq!(
        Algorithm::for_device(&DeviceType::GPU { vendor: GPUVendor::NVIDIA }),
        Algorithm::Ethash
    );
    assert_eq!(Algorithm::for_device(&DeviceType::CPU { cores: 8 }), Algorithm::GXHash);
}
