use session_auth::{hex_string_to_u8_array, HexError};

#[test]
fn decodes_a_key_of_64_digits() {
    let text = "000102030405060708090a0b0c0d0e0f101112131415161718191a1b1c1d1e1f";
    let key = hex_string_to_u8_array(text).unwrap();
    for (i, byte) in key.iter().enumerate() {
        assert_eq!(*byte as usize, i);
    }
}

#[test]
fn decodes_digits_of_either_case() {
    let lower = "ffeeddccbbaa99887766554433221100ffeeddccbbaa99887766554433221100";
    let upper = "FFEEDDCCBBAA99887766554433221100FFEEDDCCBBAA99887766554433221100";
    let mixed = "FfEeDdCcBbAa99887766554433221100fFeEdDcCbBaA99887766554433221100";
    let key = hex_string_to_u8_array(lower).unwrap();
    assert_eq!(key[0], 0xff);
    assert_eq!(key[1], 0xee);
    assert_eq!(key[15], 0x00);
    assert_eq!(key[31], 0x00);
    assert_eq!(hex_string_to_u8_array(upper), Ok(key));
    assert_eq!(hex_string_to_u8_array(mixed), Ok(key));
}

#[test]
fn the_first_digit_of_a_pair_is_the_high_half() {
    let text = "1a00000000000000000000000000000000000000000000000000000000000000";
    let key = hex_string_to_u8_array(text).unwrap();
    assert_eq!(key[0], 0x1a);
    assert_eq!(key[0], 26);
}

#[test]
fn rejects_an_odd_number_of_digits() {
    assert_eq!(hex_string_to_u8_array("abc"), Err(HexError::OddLength));
    let text = "000102030405060708090a0b0c0d0e0f101112131415161718191a1b1c1d1e1";
    assert_eq!(text.len(), 63);
    assert_eq!(hex_string_to_u8_array(text), Err(HexError::OddLength));
}

#[test]
fn an_odd_length_is_reported_before_a_bad_digit() {
    assert_eq!(hex_string_to_u8_array("zzz"), Err(HexError::OddLength));
}

#[test]
fn reports_the_first_bad_digit_and_its_position() {
    let text = "00010g030405060708090a0b0c0d0e0f101112131415161718191a1b1c1d1ezz";
    assert_eq!(text.len(), 64);
    assert_eq!(
        hex_string_to_u8_array(text),
        Err(HexError::InvalidHexCharacter { c: 'g', index: 5 })
    );
    assert_eq!(
        hex_string_to_u8_array("0x"),
        Err(HexError::InvalidHexCharacter { c: 'x', index: 1 })
    );
}

#[test]
fn a_bad_digit_is_reported_before_a_wrong_size() {
    assert_eq!(
        hex_string_to_u8_array("q0"),
        Err(HexError::InvalidHexCharacter { c: 'q', index: 0 })
    );
}

#[test]
fn reports_a_byte_that_is_no_ascii_by_its_value() {
    // The two UTF-8 bytes of the letter are 0xC3 and 0xA9.
    assert_eq!(
        hex_string_to_u8_array("\u{e9}"),
        Err(HexError::InvalidHexCharacter { c: '\u{c3}', index: 0 })
    );
}

#[test]
fn rejects_a_text_of_another_size() {
    assert_eq!(hex_string_to_u8_array(""), Err(HexError::InvalidStringLength));
    assert_eq!(hex_string_to_u8_array("abcd"), Err(HexError::InvalidStringLength));
    let long = "000102030405060708090a0b0c0d0e0f101112131415161718191a1b1c1d1e1f20";
    assert_eq!(long.len(), 66);
    assert_eq!(hex_string_to_u8_array(long), Err(HexError::InvalidStringLength));
}
