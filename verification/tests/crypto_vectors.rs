//! The delegated cryptographic primitives held against their published
//! test vectors: SHA-1 (FIPS 180 example), HMAC-SHA-1 (RFC 2202) and
//! PBKDF2-HMAC-SHA-1 (RFC 6070), run through the same library the engine
//! calls.

use openssl::hash::{hash, MessageDigest};
use openssl::pkcs5::pbkdf2_hmac;
use openssl::pkey::PKey;
use openssl::sign::Signer;

fn hex(bytes: &[u8]) -> String {
    let mut s = String::new();
    for b in bytes {
        s.push_str(&format!("{:02x}", b));
    }
    s
}

#[test]
fn sha1_matches_the_fips_example() {
    let d = hash(MessageDigest::sha1(), b"abc").unwrap();
    assert_eq!(hex(&d), "a9993e364706816aba3e25717850c26c9cd0d89d");
}

#[test]
fn hmac_sha1_matches_rfc_2202() {
    let key = [0x0bu8; 20];
    let pkey = PKey::hmac(&key).unwrap();
    let mut signer = Signer::new(MessageDigest::sha1(), &pkey).unwrap();
    let tag = signer.sign_oneshot_to_vec(b"Hi There").unwrap();
    assert_eq!(hex(&tag), "b617318655057264e28bc0b6fb378c8ef146be00");
}

#[test]
fn pbkdf2_hmac_sha1_matches_rfc_6070() {
    let mut key = [0u8; 20];
    pbkdf2_hmac(b"password", b"salt", 1, MessageDigest::sha1(), &mut key).unwrap();
    assert_eq!(hex(&key), "0c60c80f961f0e71f3a9b524af6012062fe037a6");

    let mut key = [0u8; 20];
    pbkdf2_hmac(b"password", b"salt", 4096, MessageDigest::sha1(), &mut key).unwrap();
    assert_eq!(hex(&key), "4b007901b765489abead49d926f721d065a429c1");
}

#[test]
fn base64_round_trips_through_the_standard_alphabet() {
    assert_eq!(base64::encode(b"\x00alice\x00test"), "AGFsaWNlAHRlc3Q=");
    assert_eq!(base64::decode("QSXCR+Q6sek8bf92").unwrap().len(), 12);
    assert!(base64::decode("!!!").is_err());
}
