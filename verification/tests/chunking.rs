//! The UTF-8 chunking rule: a multi-byte character split across two socket
//! reads is neither consumed early nor lost.

use xmpp::read_str::{utf8_char_width, utf8_valid_prefix_len};

#[test]
fn widths_follow_the_lead_byte() {
    assert_eq!(utf8_char_width(b'a'), 1);
    assert_eq!(utf8_char_width(0x7f), 1);
    assert_eq!(utf8_char_width(0x80), 0);
    assert_eq!(utf8_char_width(0xc1), 0);
    assert_eq!(utf8_char_width(0xc3), 2);
    assert_eq!(utf8_char_width(0xe2), 3);
    assert_eq!(utf8_char_width(0xf0), 4);
    assert_eq!(utf8_char_width(0xf5), 0);
}

#[test]
fn complete_ascii_is_consumed_whole() {
    assert_eq!(utf8_valid_prefix_len(b"<message/>"), 10);
    assert_eq!(utf8_valid_prefix_len(b""), 0);
    assert_eq!(utf8_valid_prefix_len(b"ab"), 2);
}

#[test]
fn a_split_euro_sign_stays_buffered() {
    // "<a>€" with the euro sign (e2 82 ac) cut after two bytes
    let buf = [b'<', b'a', b'>', 0xe2, 0x82];
    assert_eq!(utf8_valid_prefix_len(&buf), 3);
    // once the third byte arrives the whole character is consumed
    let buf = [b'<', b'a', b'>', 0xe2, 0x82, 0xac];
    assert_eq!(utf8_valid_prefix_len(&buf), 6);
}

#[test]
fn a_complete_multibyte_tail_is_consumed() {
    // "é" is c3 a9: complete at the end of the buffer
    let buf = [b'n', 0xc3, 0xa9];
    assert_eq!(utf8_valid_prefix_len(&buf), 3);
    // cut in half: only the ASCII prefix may be consumed
    let buf = [b'n', 0xc3];
    assert_eq!(utf8_valid_prefix_len(&buf), 1);
}

#[test]
fn a_split_four_byte_character_stays_buffered() {
    // U+1F600 is f0 9f 98 80
    let buf = [b'x', 0xf0, 0x9f, 0x98];
    assert_eq!(utf8_valid_prefix_len(&buf), 1);
    let buf = [b'x', 0xf0, 0x9f, 0x98, 0x80];
    assert_eq!(utf8_valid_prefix_len(&buf), 5);
}
