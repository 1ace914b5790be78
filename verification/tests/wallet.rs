use session_auth::{convert_to_outpoint, OutPoint, SeedStore};

const TXID: &str = "000102030405060708090a0b0c0d0e0f101112131415161718191a1b1c1d1e1f";

fn vout_of(text: &str) -> Option<u32> {
    convert_to_outpoint(&format!("{}:{}", TXID, text)).map(|outpoint| outpoint.vout)
}

#[test]
fn reads_identifier_and_output_number() {
    let outpoint = convert_to_outpoint(&format!("{}:7", TXID)).unwrap();
    assert_eq!(outpoint.vout, 7);
    for i in 0..32 {
        assert_eq!(outpoint.txid[i] as usize, 31 - i);
    }
}

#[test]
fn the_identifier_is_reversed() {
    let text = "ff000000000000000000000000000000000000000000000000000000000000aa:0".to_string();
    let mut txid = [0u8; 32];
    txid[0] = 0xaa;
    txid[31] = 0xff;
    assert_eq!(convert_to_outpoint(&text), Some(OutPoint { txid, vout: 0 }));
}

#[test]
fn reads_the_output_number_as_the_standard_library_does() {
    for text in [
        "0", "1", "42", "007", "+5", "+0", "4294967295", "4294967296", "04294967295",
        "00000000000000000001", "99999999999999999999", "", "+", "-", "-1", "-0", "++1", "1+",
        " 1", "1 ", "1a", "a", "0x10", "1_000", "1.0", "\u{663}",
    ] {
        assert_eq!(vout_of(text), text.parse::<u32>().ok());
    }
    assert_eq!(vout_of("4294967295"), Some(u32::MAX));
    assert_eq!(vout_of("4294967296"), None);
    assert_eq!(vout_of("+5"), Some(5));
    assert_eq!(vout_of("007"), Some(7));
}

#[test]
fn what_follows_a_second_colon_is_not_read() {
    assert_eq!(vout_of("3:anything"), Some(3));
    assert_eq!(vout_of("3:"), Some(3));
    assert_eq!(vout_of(":3"), None);
}

#[test]
fn a_text_without_colon_names_no_output() {
    assert_eq!(convert_to_outpoint(&TXID.to_string()), None);
    assert_eq!(convert_to_outpoint(&String::new()), None);
    assert_eq!(convert_to_outpoint(&"7".to_string()), None);
}

#[test]
fn a_malformed_identifier_names_no_output() {
    assert_eq!(convert_to_outpoint(&":7".to_string()), None);
    assert_eq!(convert_to_outpoint(&"abcd:7".to_string()), None);
    assert_eq!(convert_to_outpoint(&format!("{}00:7", TXID)), None);
    assert_eq!(convert_to_outpoint(&format!("{}:7", &TXID[1..])), None);
    let no_hex = TXID.replace("0a", "0g");
    assert_eq!(convert_to_outpoint(&format!("{}:7", no_hex)), None);
}

#[test]
fn seed_store_holds_the_mnemonic() {
    let store = SeedStore { mnemonic: "abandon ability able".to_string() };
    assert_eq!(store.clone(), store);
    assert_eq!(store.mnemonic, "abandon ability able");
}
