//! The SASL mechanisms: PLAIN and ANONYMOUS messages, the SCRAM-SHA-1
//! exchange against the RFC 5802 test vector, nonce shape, and the
//! server-first-message parser.

use xmpp::auth::scram::{parse_server_first, ScramAuth, State};
use xmpp::auth::{AnonAuth, Authenticator, PlainAuth};

#[test]
fn plain_initial_is_nul_separated() {
    let mut a = PlainAuth::new("alice".to_owned(), "test".to_owned(), None);
    let d = a.initial().unwrap();
    assert_eq!(d, b"\x00alice\x00test".to_vec());
    assert_eq!(a.continuation(b"x").unwrap(), Vec::<u8>::new());
}

#[test]
fn plain_initial_carries_the_authzid() {
    let mut a = PlainAuth::new("alice".to_owned(), "test".to_owned(), Some("admin".to_owned()));
    assert_eq!(a.initial().unwrap(), b"admin\x00alice\x00test".to_vec());
}

#[test]
fn anonymous_initial_is_empty() {
    let mut a = AnonAuth::new();
    assert_eq!(a.initial().unwrap(), Vec::<u8>::new());
}

#[test]
fn scram_full_exchange_matches_the_rfc_vector() {
    let mut a = ScramAuth::new("user".to_owned(), "pencil".to_owned(), None);
    let first = a.initial_with_cnonce("fyko+d2lbbFgONRv9qkxdawL".to_owned());
    assert_eq!(first, b"n,,n=user,r=fyko+d2lbbFgONRv9qkxdawL".to_vec());

    let server_first = b"r=fyko+d2lbbFgONRv9qkxdawL3rfcNHYJY1ZVvWVs7j,s=QSXCR+Q6sek8bf92,i=4096";
    let client_final = a.continuation(server_first).unwrap();
    assert_eq!(
        String::from_utf8(client_final).unwrap(),
        "c=biws,r=fyko+d2lbbFgONRv9qkxdawL3rfcNHYJY1ZVvWVs7j,p=v0X8v3Bz2T0CJGbJQyF0X+HI4Ts="
    );

    let server_final = b"v=rmF9pqV8S7suAoZWja4dJRkFsKQ=";
    assert_eq!(a.continuation(server_final).unwrap(), Vec::<u8>::new());
    assert!(matches!(a.state, State::Finished));

    // once finished, further continuations owe nothing
    assert_eq!(a.continuation(b"").unwrap(), Vec::<u8>::new());
}

#[test]
fn scram_rejects_a_wrong_verifier() {
    let mut a = ScramAuth::new("user".to_owned(), "pencil".to_owned(), None);
    let _ = a.initial_with_cnonce("fyko+d2lbbFgONRv9qkxdawL".to_owned());
    let server_first = b"r=fyko+d2lbbFgONRv9qkxdawL3rfcNHYJY1ZVvWVs7j,s=QSXCR+Q6sek8bf92,i=4096";
    let _ = a.continuation(server_first).unwrap();
    assert!(a.continuation(b"v=AAAAAAAAAAAAAAAAAAAAAAAAAAA=").is_err());
    assert!(!matches!(a.state, State::Finished));
}

#[test]
fn scram_rejects_a_nonce_that_does_not_extend_ours() {
    let mut a = ScramAuth::new("user".to_owned(), "pencil".to_owned(), None);
    let _ = a.initial_with_cnonce("fyko+d2lbbFgONRv9qkxdawL".to_owned());
    let server_first = b"r=NOTOURNONCE,s=QSXCR+Q6sek8bf92,i=4096";
    assert!(a.continuation(server_first).is_err());
}

#[test]
fn scram_rejects_non_utf8_server_data() {
    let mut a = ScramAuth::new("user".to_owned(), "pencil".to_owned(), None);
    let _ = a.initial_with_cnonce("fyko+d2lbbFgONRv9qkxdawL".to_owned());
    assert!(a.continuation(&[0xff, 0xfe, b'r', b'=']).is_err());
}

#[test]
fn scram_nonce_is_printable_and_comma_free() {
    let mut a = ScramAuth::new("user".to_owned(), "pencil".to_owned(), None);
    let d = a.initial().unwrap();
    // output is gs2-header || client-first-message-bare
    let text = String::from_utf8(d).unwrap();
    let nonce = text.split(",r=").nth(1).expect("client-first carries r=");
    assert_eq!(nonce.len(), 64);
    for b in nonce.bytes() {
        assert!(b == b'~' || (b'!' <= b && b <= b'}'));
        assert_ne!(b, b',');
    }
}

#[test]
fn two_nonces_differ() {
    let mut a = ScramAuth::new("user".to_owned(), "pencil".to_owned(), None);
    let mut b = ScramAuth::new("user".to_owned(), "pencil".to_owned(), None);
    assert_ne!(a.initial().unwrap(), b.initial().unwrap());
}

#[test]
fn parse_server_first_reads_all_three_fields() {
    let (nonce, salt, iter) = parse_server_first(b"r=abc,s=QSXCR+Q6sek8bf92,i=4096").unwrap();
    assert_eq!(nonce, b"abc".to_vec());
    assert_eq!(salt.len(), 12);
    assert_eq!(iter, 4096);
}

#[test]
fn parse_server_first_accepts_a_plus_prefixed_count() {
    let (_, _, iter) = parse_server_first(b"r=abc,s=QSXCR+Q6sek8bf92,i=+4096").unwrap();
    assert_eq!(iter, 4096);
}

#[test]
fn parse_server_first_rejects_missing_fields() {
    assert!(parse_server_first(b"s=QSXCR+Q6sek8bf92,i=4096").is_err());
    assert!(parse_server_first(b"r=abc,i=4096").is_err());
    assert!(parse_server_first(b"r=abc,s=QSXCR+Q6sek8bf92").is_err());
}

#[test]
fn parse_server_first_rejects_mandatory_extensions() {
    assert!(parse_server_first(b"m=ext,r=abc,s=QSXCR+Q6sek8bf92,i=4096").is_err());
}

#[test]
fn parse_server_first_rejects_bad_salt_and_bad_count() {
    assert!(parse_server_first(b"r=abc,s=!!!,i=4096").is_err());
    assert!(parse_server_first(b"r=abc,s=QSXCR+Q6sek8bf92,i=many").is_err());
    assert!(parse_server_first(b"r=abc,s=QSXCR+Q6sek8bf92,i=70000").is_err());
}
