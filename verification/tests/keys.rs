use hypersync::keys::{parse_key_from_string, KeyError};

#[test]
fn parse_key_accepts_a_64_digit_key() {
    let text = "00112233445566778899aabbccddeeff00112233445566778899aabbccddeeff";
    let key = parse_key_from_string(text).unwrap();
    assert_eq!(key.len(), 32);
    assert_eq!(key[0], 0x00);
    assert_eq!(key[1], 0x11);
    assert_eq!(key[9], 0x99);
    assert_eq!(key[15], 0xff);
    assert_eq!(key[31], 0xff);
}

#[test]
fn parse_key_accepts_upper_case_digits() {
    let lower = "aabbccddeeff00112233445566778899aabbccddeeff001122334455667788ff";
    let upper = "AABBCCDDEEFF00112233445566778899AABBCCDDEEFF001122334455667788FF";
    assert_eq!(
        parse_key_from_string(lower).unwrap(),
        parse_key_from_string(upper).unwrap()
    );
}

#[test]
fn parse_key_rejects_an_odd_length() {
    let text = "00112233445566778899aabbccddeeff00112233445566778899aabbccddeef";
    assert_eq!(parse_key_from_string(text), Err(KeyError::InvalidHex));
}

#[test]
fn parse_key_rejects_a_non_hex_character() {
    let text = "zz112233445566778899aabbccddeeff00112233445566778899aabbccddeeff";
    assert_eq!(parse_key_from_string(text), Err(KeyError::InvalidHex));
}

#[test]
fn parse_key_rejects_a_short_key() {
    assert_eq!(
        parse_key_from_string("00ff"),
        Err(KeyError::InvalidKeyLength)
    );
}

#[test]
fn parse_key_rejects_a_long_key() {
    let text = "00112233445566778899aabbccddeeff00112233445566778899aabbccddeeff00";
    assert_eq!(parse_key_from_string(text), Err(KeyError::InvalidKeyLength));
}

#[test]
fn parse_key_rejects_the_empty_string() {
    assert_eq!(parse_key_from_string(""), Err(KeyError::InvalidKeyLength));
}
