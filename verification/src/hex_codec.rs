//! Hexadecimal text and the bytes it stands for.

use vstd::prelude::*;
use vstd::utf8::{encode_utf8, is_ascii_chars, is_ascii_chars_encode_utf8};

verus! {

/// Why a text was not accepted as hexadecimal.
#[derive(Clone, Copy, Debug, PartialEq, Eq, Structural)]
pub enum HexError {
    /// The byte at `index` is no hexadecimal digit; `c` is that byte as a
    /// character.
    InvalidHexCharacter { c: char, index: usize },
    /// The text has an odd number of bytes.
    OddLength,
    /// The text does not stand for the number of bytes that was asked for.
    InvalidStringLength,
}

/// The value of a hexadecimal digit given as an ASCII byte, in either case.
pub open spec fn hex_digit_value(b: u8) -> Option<u8> {
    if 0x30 <= b <= 0x39 {
        Some((b - 0x30) as u8)
    } else if 0x61 <= b <= 0x66 {
        Some((b - 0x61 + 10) as u8)
    } else if 0x41 <= b <= 0x46 {
        Some((b - 0x41 + 10) as u8)
    } else {
        None
    }
}

/// The lower-case hexadecimal digit for a value below 16.
pub open spec fn hex_digit(v: int) -> char {
    if v < 10 {
        ((0x30 + v) as u8) as char
    } else {
        ((0x61 + v - 10) as u8) as char
    }
}

/// Lower-case hexadecimal text of `bytes`: two digits per byte, high half
/// first.
pub open spec fn hex_encode(bytes: Seq<u8>) -> Seq<char> {
    Seq::new(
        2 * bytes.len(),
        |i: int| if i % 2 == 0 {
            hex_digit(bytes[i / 2] as int / 16)
        } else {
            hex_digit(bytes[i / 2] as int % 16)
        },
    )
}

/// Every byte of `text` before position `end` is a hexadecimal digit.
pub open spec fn all_hex_before(text: Seq<u8>, end: int) -> bool {
    forall|j: int| 0 <= j < end ==> (#[trigger] hex_digit_value(text[j])) is Some
}

/// `index` is the position of the first byte of `text` that is no
/// hexadecimal digit.
pub open spec fn first_non_hex_at(text: Seq<u8>, index: int) -> bool {
    &&& 0 <= index < text.len()
    &&& hex_digit_value(text[index]) is None
    &&& all_hex_before(text, index)
}

/// What decoding `text` gives: the bytes that its digit pairs stand for, or
/// the reason why it is no hexadecimal text. An odd length is reported
/// before a bad digit, and of several bad digits the first.
pub open spec fn hex_decode(text: Seq<u8>) -> Result<Seq<u8>, HexError> {
    if text.len() % 2 != 0 {
        Err(HexError::OddLength)
    } else if all_hex_before(text, text.len() as int) {
        Ok(
            Seq::new(
                text.len() / 2,
                |i: int|
                    (hex_digit_value(text[2 * i])->0 * 16 + hex_digit_value(text[2 * i + 1])->0) as u8,
            ),
        )
    } else {
        let index = choose|index: int| first_non_hex_at(text, index);
        Err(HexError::InvalidHexCharacter { c: text[index] as char, index: index as usize })
    }
}

/// Calls `hex::encode`: the text holds two lower-case hexadecimal digits
/// for each byte of `data`, in order, the high half of a byte first.
#[verifier::external_body]
pub(crate) fn encode_hex(data: &[u8]) -> (text: String)
    ensures
        text@ == hex_encode(data@),
{
    hex::encode(data)
}

/// Calls `hex::decode`: an odd number of bytes is refused first, then the
/// first byte that is no hexadecimal digit, reported with its position;
/// otherwise each pair of digits, of either case, gives one byte, the first
/// digit being its high half.
#[verifier::external_body]
pub(crate) fn decode_hex(text: &[u8]) -> (decoded: Result<Vec<u8>, HexError>)
    ensures
        match decoded {
            Ok(bytes) => hex_decode(text@) == Ok::<Seq<u8>, HexError>(bytes@),
            Err(e) => hex_decode(text@) == Err::<Seq<u8>, HexError>(e),
        },
{
    match hex::decode(text) {
        Ok(bytes) => Ok(bytes),
        Err(hex::FromHexError::InvalidHexCharacter { c, index }) => Err(
            HexError::InvalidHexCharacter { c, index },
        ),
        Err(hex::FromHexError::OddLength) => Err(HexError::OddLength),
        Err(hex::FromHexError::InvalidStringLength) => Err(HexError::InvalidStringLength),
    }
}

/// What decoding `text` into a key of 32 bytes gives: the bytes, the reason
/// why `text` is no hexadecimal text, or `InvalidStringLength` where it
/// stands for another number of bytes.
pub open spec fn hex_decode_32(text: Seq<u8>) -> Result<Seq<u8>, HexError> {
    match hex_decode(text) {
        Ok(bytes) => if bytes.len() == 32 {
            Ok(bytes)
        } else {
            Err(HexError::InvalidStringLength)
        },
        Err(e) => Err(e),
    }
}

/// Decodes a hexadecimal text of 64 digits into the 32 bytes of a key.
pub fn hex_string_to_u8_array(hex_str: &str) -> (decoded: Result<[u8; 32], HexError>)
    ensures
        match decoded {
            Ok(key) => hex_decode_32(encode_utf8(hex_str@)) == Ok::<Seq<u8>, HexError>(key@),
            Err(e) => hex_decode_32(encode_utf8(hex_str@)) == Err::<Seq<u8>, HexError>(e),
        },
{
    match decode_hex(hex_str.as_bytes()) {
        Ok(bytes) => {
            if bytes.len() == 32 {
                let mut key = [0u8; 32];
                let mut i: usize = 0;
                while i < 32
                    invariant
                        i <= 32,
                        bytes.len() == 32,
                        forall|j: int| 0 <= j < i ==> key@[j] == bytes@[j],
                    decreases 32 - i,
                {
                    key[i] = bytes[i];
                    i += 1;
                }
                assert(key@ =~= bytes@);
                Ok(key)
            } else {
                Err(HexError::InvalidStringLength)
            }
        },
        Err(e) => Err(e),
    }
}

/// Decoding the text of some bytes gives the bytes back.
pub proof fn lemma_hex_round_trip(bytes: Seq<u8>)
    ensures
        hex_decode(encode_utf8(hex_encode(bytes))) == Ok::<Seq<u8>, HexError>(bytes),
{
    let chars = hex_encode(bytes);
    let text = encode_utf8(chars);
    // The digits are ASCII, so each is one byte of the text.
    assert(is_ascii_chars(chars)) by {
        assert forall|i: int| 0 <= i < chars.len() implies '\0' <= #[trigger] chars[i]
            <= '\u{7f}' by {
            assert(0 <= bytes[i / 2] / 16 < 16 && 0 <= bytes[i / 2] % 16 < 16);
        }
    }
    is_ascii_chars_encode_utf8(chars);
    // Each byte of the text is the digit of one half of a byte.
    assert forall|j: int| 0 <= j < text.len() implies (#[trigger] hex_digit_value(text[j])) == Some(
        (if j % 2 == 0 {
            bytes[j / 2] as int / 16
        } else {
            bytes[j / 2] as int % 16
        }) as u8,
    ) by {
        assert(text[j] == chars[j] as u8);
    }
    let decoded = hex_decode(text)->Ok_0;
    assert forall|i: int| 0 <= i < bytes.len() implies decoded[i] == bytes[i] by {
        assert(hex_digit_value(text[2 * i]) == Some((bytes[i] as int / 16) as u8));
        assert(hex_digit_value(text[2 * i + 1]) == Some((bytes[i] as int % 16) as u8));
    }
    assert(decoded =~= bytes);
}

} // verus!
