//! Texts, numbers and digests.

use vapour_protection::digest::sha256_hex;
use vapour_protection::json::{json_list, json_truth};
use vapour_protection::net::{parse_ip, parse_socket, split_at, Ipv6Addr};
use vapour_protection::text::{
    chars_of, contains_char, decimal_text, digit_to_char, hex_text, hexadecimal_text, index_of,
    is_white_space, join, join3, join4, join5, parse_digits, parse_number, part, same_text,
    shorten, string_of, trimmed, value_of_digit, NumberError,
};

#[test]
fn texts_are_put_together_and_taken_apart() {
    assert_eq!(join("a", "b"), "ab");
    assert_eq!(join3("a", "", "c"), "ac");
    assert_eq!(join4("a", "b", "c", "d"), "abcd");
    assert_eq!(join5("a", "b", "c", "d", "\u{e9}"), "abcd\u{e9}");
    let chars = chars_of("1:22:");
    assert_eq!(chars, vec!['1', ':', '2', '2', ':']);
    assert_eq!(string_of(&part(&chars, 2, 4)), "22");
    assert_eq!(index_of(&chars, ':'), 1);
    assert_eq!(index_of(&chars, 'x'), 5);
    assert!(contains_char(&chars, '2'));
    assert!(!contains_char(&chars, '3'));
    assert_eq!(
        split_at(&chars, ':'),
        vec![vec!['1'], vec!['2', '2'], vec![]]
    );
    assert!(same_text("ready", "ready"));
    assert!(!same_text("ready", "readY"));
}

#[test]
fn white_space_is_trimmed_at_both_ends() {
    assert_eq!(trimmed(" \t\u{a0}a b\u{2003}\n"), vec!['a', ' ', 'b']);
    assert_eq!(trimmed(" \u{3000}"), Vec::<char>::new());
    for c in ['\u{85}', '\u{1680}', '\u{2028}', '\u{205f}'] {
        assert!(is_white_space(c) && c.is_whitespace());
    }
    for c in ['\u{200b}', '\u{feff}', 'a', '\0'] {
        assert!(!is_white_space(c) && !c.is_whitespace());
    }
}

#[test]
fn numbers_are_written_and_read() {
    assert_eq!(decimal_text(0), "0");
    assert_eq!(decimal_text(u64::MAX), u64::MAX.to_string());
    assert_eq!(hexadecimal_text(0), "0");
    assert_eq!(hexadecimal_text(0xbeef), "beef");
    assert_eq!(hex_text(&[0x00, 0x0f, 0xa5]), "000fa5");
    assert_eq!(digit_to_char(9), '9');
    assert_eq!(digit_to_char(15), 'f');
    assert_eq!(value_of_digit('F', 16), Some(15));
    assert_eq!(value_of_digit('8', 8), None);
    assert_eq!(parse_digits(&chars_of("ffff"), 16, 65_535), Ok(65_535));
    assert_eq!(
        parse_digits(&chars_of("10000"), 16, 65_535),
        Err(NumberError::TooLarge)
    );
    assert_eq!(parse_number(&chars_of("+53"), 10, 65_535), Ok(53));
    assert_eq!(
        parse_number(&chars_of(""), 10, 65_535),
        Err(NumberError::Empty)
    );
    assert_eq!(
        parse_number(&chars_of("-1"), 10, 65_535),
        Err(NumberError::InvalidDigit)
    );
    assert_eq!(
        parse_number(&chars_of("65536"), 10, 65_535),
        Err(NumberError::TooLarge)
    );
    for text in ["", "-1", "65536"] {
        let own = parse_number(&chars_of(text), 10, 65_535).unwrap_err();
        let known = text.parse::<u16>().unwrap_err();
        assert_eq!(own.message(), known.to_string());
    }
}

#[test]
fn long_texts_are_shortened_by_characters() {
    assert_eq!(shorten("h\u{e9}llo", 2), "h\u{e9}");
    assert_eq!(shorten("abc", 3), "abc");
    assert_eq!(shorten("abc", 9), "abc");
}

#[test]
fn strings_are_escaped_in_lists() {
    let texts = vec![
        "plain".to_owned(),
        "quote \" back \\ slash / \u{7f}".to_owned(),
        "\u{8}\t\n\u{c}\r\u{1}\u{1f}\u{e9}".to_owned(),
    ];
    let list = format!("[{}]", json_list(&texts));
    assert_eq!(list, serde_json::to_string(&texts).unwrap());
    assert_eq!(
        json_list(&texts[2..]),
        "\"\\b\\t\\n\\f\\r\\u0001\\u001f\u{e9}\""
    );
    assert_eq!(json_list(&[]), "");
    assert_eq!((json_truth(true), json_truth(false)), ("true", "false"));
}

#[test]
fn digests_are_those_of_the_bytes() {
    assert_eq!(
        sha256_hex(b""),
        "e3b0c44298fc1c149afbf4c8996fb92427ae41e4649b934ca495991b7852b855"
    );
    assert_eq!(
        sha256_hex(b"abc"),
        "ba7816bf8f01cfea414140de5dae2223b00361a396177a9cb410ff61f20015ad"
    );
}

#[test]
fn addresses_are_parts_and_texts() {
    let segments = [0xfe80, 0, 0, 0, 0, 0, 0, 1];
    let address = Ipv6Addr::from_segments(&segments);
    assert!(address.is_unicast_link_local());
    assert_eq!(address.to_segments(), segments);
    assert!(!Ipv6Addr::new(0xfec0, 0, 0, 0, 0, 0, 0, 1).is_unicast_link_local());
    assert_eq!(parse_ip(&chars_of("fe80::1")).unwrap().text(), "fe80::1");
    assert_eq!(
        parse_socket(&chars_of("[fe80::1%7]:53")).unwrap().text(),
        "[fe80::1%7]:53"
    );
    assert_eq!(parse_socket(&chars_of("[fe80::1]:")), None);
}
