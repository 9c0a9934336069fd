use dustcfg::hex::{decode_hex_to_utf8, HexDecodeError};

#[test]
fn test_decode_hex_to_utf8() {
    assert_eq!("z", decode_hex_to_utf8("7A").unwrap());
    assert_eq!("\u{FFFD}", decode_hex_to_utf8("AA").unwrap());
    assert_eq!(
        "{\"name\":\"John\", \"age\":30, \"car\":null}",
        decode_hex_to_utf8(
            "7B226E616D65223A224A6F686E222C2022616765223A33302C2022636172223A6E756C6C7D"
        )
        .unwrap()
    );
}

#[test]
fn test_decode_hex_to_utf8_should_error() {
    let result = decode_hex_to_utf8("testy");
    let expected = Err(HexDecodeError::InvalidInput);
    assert_eq!(expected, result);
}

#[test]
fn test_decode_hex_empty_input() {
    assert_eq!("", decode_hex_to_utf8("").unwrap());
}

#[test]
fn test_decode_hex_lowercase_digits() {
    assert_eq!("z", decode_hex_to_utf8("7a").unwrap());
}

#[test]
fn test_decode_hex_odd_length_is_invalid() {
    assert_eq!(Err(HexDecodeError::InvalidInput), decode_hex_to_utf8("7A7"));
}

#[test]
fn test_decode_hex_nonhex_byte_is_invalid() {
    assert_eq!(Err(HexDecodeError::InvalidInput), decode_hex_to_utf8("7G"));
}
