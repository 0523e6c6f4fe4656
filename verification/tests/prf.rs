//! The pseudorandom function on known values.

use dtls::cipher_suite::CipherSuiteHash;
use dtls::prf::{
    prf_extended_master_secret, prf_master_secret, prf_p_hash, prf_verify_data_client,
    prf_verify_data_server,
};

/// The random with the given time and 28 times the given byte.
fn random(time: u32, byte: u8) -> Vec<u8> {
    let mut bytes: Vec<u8> = time.to_be_bytes().to_vec();
    bytes.extend_from_slice(&[byte; 28]);
    bytes
}

#[test]
fn p_hash_gives_the_published_vector() {
    let secret: Vec<u8> = vec![
        0x9b, 0xbe, 0x43, 0x6b, 0xa9, 0x40, 0xf0, 0x17, 0xb1, 0x76, 0x52, 0x84,
        0x9a, 0x71, 0xdb, 0x35,
    ];
    let mut seed: Vec<u8> = b"test label".to_vec();
    seed.extend_from_slice(&[
        0xa0, 0xba, 0x9f, 0x93, 0x6c, 0xda, 0x31, 0x18, 0x27, 0xa6, 0xf7, 0x96,
        0xff, 0xd5, 0x19, 0x8c,
    ]);
    let expected: Vec<u8> = vec![
        0xe3, 0xf2, 0x29, 0xba, 0x72, 0x7b, 0xe1, 0x7b, 0x8d, 0x12, 0x26, 0x20,
        0x55, 0x7c, 0xd4, 0x53, 0xc2, 0xaa, 0xb2, 0x1d, 0x07, 0xc3, 0xd4, 0x95,
        0x32, 0x9b, 0x52, 0xd4, 0xe6, 0x1e, 0xdb, 0x5a, 0x6b, 0x30, 0x17, 0x91,
        0xe9, 0x0d, 0x35, 0xc9, 0xc9, 0xa4, 0x6b, 0x4e, 0x14, 0xba, 0xf9, 0xaf,
        0x0f, 0xa0, 0x22, 0xf7, 0x07, 0x7d, 0xef, 0x17, 0xab, 0xfd, 0x37, 0x97,
        0xc0, 0x56, 0x4b, 0xab, 0x4f, 0xbc, 0x91, 0x66, 0x6e, 0x9d, 0xef, 0x9b,
        0x97, 0xfc, 0xe3, 0x4f, 0x79, 0x67, 0x89, 0xba, 0xa4, 0x80, 0x82, 0xd1,
        0x22, 0xee, 0x42, 0xc5, 0xa7, 0x2e, 0x5a, 0x51, 0x10, 0xff, 0xf7, 0x01,
        0x87, 0x34, 0x7b, 0x66,
    ];
    let out = prf_p_hash(&secret, &seed, 100, CipherSuiteHash::Sha256).unwrap();
    assert_eq!(out, expected);
}

#[test]
fn a_shorter_expansion_starts_a_longer_one() {
    let long = prf_p_hash(&[1, 2, 3], &[4, 5], 97, CipherSuiteHash::Sha256).unwrap();
    assert_eq!(long.len(), 97);
    for length in [0, 1, 31, 32, 33, 64, 96] {
        let short = prf_p_hash(&[1, 2, 3], &[4, 5], length, CipherSuiteHash::Sha256).unwrap();
        assert_eq!(short.as_slice(), &long[..length]);
    }
}

#[test]
fn an_empty_secret_is_accepted() {
    let out = prf_p_hash(&[], &[1], 4, CipherSuiteHash::Sha256).unwrap();
    assert_eq!(out, vec![0x10, 0xbe, 0xeb, 0xda]);
}

#[test]
fn master_secret_has_its_value() {
    let secret = prf_master_secret(
        &[5u8; 32],
        &random(0x01020304, 0x11),
        &random(0x05060708, 0x22),
        CipherSuiteHash::Sha256,
    )
    .unwrap();
    let expected: Vec<u8> = vec![
        0x93, 0x09, 0x58, 0xda, 0x13, 0x9f, 0x43, 0xb9, 0xfb, 0x49, 0x9a, 0xb8,
        0xc6, 0x10, 0x24, 0x6a, 0xb5, 0x8b, 0x76, 0xf3, 0x82, 0x52, 0xb0, 0xd3,
        0xf9, 0xbe, 0x20, 0xd9, 0x2b, 0x74, 0x53, 0x1a, 0x27, 0x40, 0xcd, 0xf7,
        0xb7, 0x5f, 0x80, 0x04, 0xde, 0x6e, 0x94, 0xc9, 0x3e, 0x9d, 0x46, 0x44,
    ];
    assert_eq!(secret, expected);
}

#[test]
fn extended_master_secret_has_its_value() {
    let secret =
        prf_extended_master_secret(&[5u8; 32], &[0xaau8; 32], CipherSuiteHash::Sha256).unwrap();
    let expected: Vec<u8> = vec![
        0x24, 0x2e, 0x63, 0x42, 0x0a, 0xbd, 0xe8, 0x8f, 0xe7, 0x9b, 0x04, 0x3d,
        0xcb, 0xdd, 0x65, 0x1a, 0x89, 0x03, 0x6b, 0x2c, 0xcd, 0x08, 0x88, 0x86,
        0x1d, 0x6b, 0xa1, 0x6d, 0x10, 0x10, 0x9c, 0xf3, 0x9d, 0x7e, 0x47, 0x32,
        0xb2, 0xef, 0x38, 0x32, 0x6b, 0x2f, 0xa7, 0xbd, 0xe4, 0x0e, 0xb5, 0xbc,
    ];
    assert_eq!(secret, expected);
}

#[test]
fn verify_data_differ_by_side() {
    let client = prf_verify_data_client(&[7u8; 48], b"abc", CipherSuiteHash::Sha256).unwrap();
    let server = prf_verify_data_server(&[7u8; 48], b"abc", CipherSuiteHash::Sha256).unwrap();
    let expected_client: Vec<u8> = vec![
        0xa6, 0xa2, 0xf0, 0xa2, 0x3a, 0xa9, 0x75, 0x68, 0x02, 0xb7, 0x38, 0x2d,
    ];
    let expected_server: Vec<u8> = vec![
        0x3d, 0x55, 0x84, 0x39, 0xf0, 0x93, 0x81, 0x1f, 0xa9, 0x67, 0x0d, 0xe3,
    ];
    assert_eq!(client, expected_client);
    assert_eq!(server, expected_server);
}
